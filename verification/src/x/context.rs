//! The session with the X server.
//!
//! The session is a list of tasks. Each is either done on the spot or stands
//! for a request to the server, whose reply is handed back before the next
//! task is taken up.

use super::devices::{
    collect_devices, collect_valuators, devices_by_id, find_target, lemma_devices_by_id,
    lemma_masks, masks_of, targets_of, valuators_of,
};
use super::events::{
    quotient, Fp3232, Position, QueueModel, XEventQueue, XInputEvent, XInputEventData,
};
use super::protocol::{
    ClientMessageData, DeviceMask, GrabStatus, InputDeviceEvent, KeyboardMapping, ModifierMapping,
    MotionNotifyEvent, PropMode, PropertyData, RawMotionEvent, Screen, Setup, Valuator,
    ValuatorMode, Visibility, XCommand, XIDeviceInfo, XIEventMask, XReply, XServerEvent,
    ALL_DEVICES, ATOM_ATOM, ATOM_STRING, ATOM_WM_CLASS, ATOM_WM_NAME, GRAB_EVENTS,
    KEY_RELEASE_NUMBER, NONE,
};
use super::setup::Extensions;
use super::util::{iter_bits, set_bits};
use super::xinput::{
    button_event, find_relative_axis, first_symbol, make_valuator_key, relative_axis, symbol_of,
    valuator_key,
};
use super::{XEvent, XRequest};
use crate::config::ConfigInputDevice;
use crate::input::{REL_X, REL_Y};
use crate::text::{decimal, push_decimal};
use std::collections::BTreeMap;
use vstd::prelude::*;
use vstd::std_specs::btree::group_btree_axioms;
use vstd::utf8::encode_utf8;

verus! {

/// The atoms that the session refers to.
#[derive(Debug, Clone, Copy, PartialEq, Eq, Structural)]
pub struct Atoms {
    pub wm_state: u32,
    pub wm_protocols: u32,
    pub wm_delete_window: u32,
    pub net_wm_state: u32,
    pub net_wm_state_fullscreen: u32,
}

/// Whether the session goes on, and whether motion is grabbed.
#[derive(Debug, Clone, Copy, PartialEq, Eq, Structural)]
pub struct XState {
    pub running: bool,
    pub grabbed: bool,
}

/// Something that the session still has to do.
#[derive(Debug, Clone, Copy, PartialEq, Eq, Structural)]
pub enum XTask {
    /// Take part in the protocol by which the window is closed.
    SetProtocols,
    /// Cover the whole screen.
    SetFullscreen,
    MapWindow,
    /// Find out about the input devices.
    QueryDevices,
    /// Find out which keys the host holds down.
    QueryKeymap { test_opcode: u8 },
    /// Release a key of the host.
    FakeRelease { test_opcode: u8, keycode: u8 },
    GrabKeyboard,
    GrabPointer { confine: bool },
    /// Take the requested devices for those to grab.
    SelectDevices,
    UngrabKeyboard,
    UngrabPointer,
    UpdateGrab { grab: bool },
    KeyboardMapping,
    ModifierMapping,
    /// Report that the window is visible or not, unless the screen is off.
    Visibility { dpms_opcode: u8, state: Visibility },
    /// Look at the state that the window manager gave a window.
    WmState { window: u32 },
    /// Look up a name for the log.
    AtomName { atom: u32 },
}

/// What the session does with the reply to its last request.
#[derive(Debug, Clone, Copy, PartialEq, Eq, Structural)]
pub enum XWait {
    Nothing,
    Done,
    Grab,
    Grabbed(bool),
    Devices,
    Keymap { test_opcode: u8 },
    KeyboardMapping,
    ModifierMapping,
    Visibility(Visibility),
    WmState,
}

/// What to do next.
#[derive(Debug, PartialEq, Eq)]
pub enum XAction {
    /// Send a request, and hand back the reply.
    Send(XCommand),
    /// Go on: the task needed nothing.
    Continue,
    /// Wait for a request or an event.
    Idle,
}

#[derive(Debug, Clone, Copy, PartialEq, Eq, Structural)]
pub enum XError {
    /// The server refused a grab.
    GrabFailed(GrabStatus),
    /// An event came from a device that is not known.
    UnknownDevice(u16),
}

impl XError {
    pub fn message(&self) -> (message: String)
        ensures
            message@ == match *self {
                XError::GrabFailed(status) => "X failed to grab with status "@ + status.text(),
                XError::UnknownDevice(id) => "XInput device unknown for event: "@ + decimal(
                    id as nat,
                ),
            },
    {
        match *self {
            XError::GrabFailed(status) => String::from_str("X failed to grab with status ").concat(
                status.name(),
            ),
            XError::UnknownDevice(id) => {
                let mut message = String::from_str("XInput device unknown for event: ");
                push_decimal(&mut message, id as u32);
                message
            },
        }
    }
}

/// Whether a keymap has a key down.
pub open spec fn key_is_down(keys: Seq<u8>, keycode: int) -> bool {
    0 <= keycode < 8 * keys.len() && (keys[keycode / 8] >> ((keycode % 8) as u8)) & 1u8 == 1u8
}

/// The tasks that release the keys below a keycode that are down.
pub open spec fn releases_below(keys: Seq<u8>, test_opcode: u8, bound: nat) -> Seq<XTask>
    decreases bound,
{
    if bound == 0 {
        Seq::empty()
    } else {
        let keycode = (bound - 1) as nat;
        let before = releases_below(keys, test_opcode, keycode);
        if key_is_down(keys, keycode as int) {
            before.push(XTask::FakeRelease { test_opcode, keycode: keycode as u8 })
        } else {
            before
        }
    }
}

/// The tasks that release the keys that are down, in ascending order.
fn key_releases(keys: &[u8; 32], test_opcode: u8) -> (tasks: Vec<XTask>)
    ensures
        tasks@ == releases_below(keys@, test_opcode, 256),
{
    let mut tasks: Vec<XTask> = Vec::new();
    let mut keycode: usize = 0;
    while keycode < 256
        invariant
            keycode <= 256,
            keys@.len() == 32,
            tasks@ == releases_below(keys@, test_opcode, keycode as nat),
        decreases 256 - keycode,
    {
        let key = keys[keycode / 8];
        let bit = (keycode % 8) as u8;
        assert((key >> bit) & 1u8 == 1u8 <==> key & (1u8 << bit) != 0u8) by (bit_vector)
            requires
                bit < 8,
        ;
        if key & (1u8 << bit) != 0 {
            tasks.push(XTask::FakeRelease { test_opcode, keycode: keycode as u8 });
        }
        keycode = keycode + 1;
    }
    tasks
}

/// What stays the same throughout a session.
#[derive(Debug)]
pub struct XInfo {
    pub window: u32,
    pub extensions: Extensions,
    pub setup: Setup,
    /// The number of the screen that the window is on.
    pub screen: usize,
    pub atoms: Atoms,
}

impl XInfo {
    /// The screen is one of the server's, and the keycodes are in order.
    pub open spec fn wf(self) -> bool {
        &&& self.screen < self.setup.roots@.len()
        &&& self.setup.min_keycode <= self.setup.max_keycode
    }
}

/// The session with the X server.
#[derive(Debug)]
pub struct XContext {
    pub info: XInfo,
    pub keys: KeyboardMapping,
    pub mods: ModifierMapping,
    /// The input devices by their ids.
    pub devices: BTreeMap<u16, XIDeviceInfo>,
    /// The devices to grab.
    pub grab_devices: Vec<ConfigInputDevice>,
    /// The devices to grab once the server has granted the grab.
    pub requested_devices: Vec<ConfigInputDevice>,
    pub valuators: BTreeMap<u32, Valuator>,
    pub state: XState,
    pub event_queue: XEventQueue,
    pub tasks: Vec<XTask>,
    pub waiting: XWait,
}

/// Whether a reply is one to the last request.
pub open spec fn answers(reply: XReply, waiting: XWait) -> bool {
    match waiting {
        XWait::Nothing => false,
        XWait::Done | XWait::Grabbed(_) => reply is Done,
        XWait::Grab => reply is Grab,
        XWait::Devices => reply is Devices,
        XWait::Keymap { .. } => reply is Keymap,
        XWait::KeyboardMapping => reply is KeyboardMapping,
        XWait::ModifierMapping => reply is ModifierMapping,
        XWait::Visibility(_) => reply is PowerOn,
        XWait::WmState => reply is Property,
    }
}

/// Whether a task stands for a request, given the extensions.
pub open spec fn sends(task: XTask, extensions: Extensions) -> bool {
    match task {
        XTask::SelectDevices => false,
        XTask::UpdateGrab { .. } | XTask::QueryDevices => extensions.input is Some,
        _ => true,
    }
}

/// What to do with the reply to the request that a task stands for.
pub open spec fn wait_of(task: XTask) -> XWait {
    match task {
        XTask::QueryDevices => XWait::Devices,
        XTask::QueryKeymap { test_opcode } => XWait::Keymap { test_opcode },
        XTask::GrabKeyboard | XTask::GrabPointer { .. } => XWait::Grab,
        XTask::UpdateGrab { grab } => XWait::Grabbed(grab),
        XTask::KeyboardMapping => XWait::KeyboardMapping,
        XTask::ModifierMapping => XWait::ModifierMapping,
        XTask::Visibility { dpms_opcode, state } => XWait::Visibility(state),
        XTask::WmState { .. } => XWait::WmState,
        _ => XWait::Done,
    }
}

/// Whether a command sets a property of the window to a list of atoms.
pub open spec fn sets_atoms(
    command: XCommand,
    mode: PropMode,
    window: u32,
    property: u32,
    atoms: Seq<u32>,
) -> bool {
    command matches XCommand::ChangeProperty {
        mode: m,
        window: w,
        property: p,
        type_: t,
        data: PropertyData::Data32(data),
    } && m == mode && w == window && p == property && t == ATOM_ATOM && data@ == atoms
}

/// Whether a command sets a property of the window to a text.
pub open spec fn sets_text(
    command: XCommand,
    window: u32,
    property: u32,
    text: Seq<u8>,
) -> bool {
    command matches XCommand::ChangeProperty {
        mode: m,
        window: w,
        property: p,
        type_: t,
        data: PropertyData::Data8(data),
    } && m == PropMode::Replace && w == window && p == property && t == ATOM_STRING && data@ == text
}

/// What the session still has to do for a request.
pub open spec fn request_tasks(request: XRequest, extensions: Extensions) -> Seq<XTask> {
    match request {
        XRequest::Quit => Seq::empty(),
        XRequest::UnstickHost => match extensions.test {
            Some(test_opcode) => seq![XTask::QueryKeymap { test_opcode }],
            None => Seq::empty(),
        },
        XRequest::Grab { xcore, confine, motion, devices } => {
            let core = if xcore {
                seq![XTask::GrabKeyboard, XTask::GrabPointer { confine }]
            } else {
                Seq::empty()
            };
            let raw = if motion {
                seq![XTask::UpdateGrab { grab: true }]
            } else {
                Seq::empty()
            };
            core + seq![XTask::SelectDevices] + raw
        },
        XRequest::Ungrab => seq![
            XTask::UngrabKeyboard,
            XTask::UngrabPointer,
            XTask::UpdateGrab { grab: false },
        ],
    }
}

impl XContext {
    /// What a request never changes but by its tasks.
    pub open spec fn same_mappings(self, other: XContext) -> bool {
        &&& self.keys == other.keys
        &&& self.mods == other.mods
    }

    pub open spec fn same_devices(self, other: XContext) -> bool {
        &&& self.devices == other.devices
        &&& self.valuators == other.valuators
    }

    /// Whether a command is the request that a task stands for.
    pub open spec fn asks(self, task: XTask, command: XCommand) -> bool {
        let window = self.info.window;
        let atoms = self.info.atoms;
        match task {
            XTask::SetProtocols => sets_atoms(
                command,
                PropMode::Replace,
                window,
                atoms.wm_protocols,
                seq![atoms.wm_delete_window],
            ),
            XTask::SetFullscreen => sets_atoms(
                command,
                PropMode::Append,
                window,
                atoms.net_wm_state,
                seq![atoms.net_wm_state_fullscreen],
            ),
            XTask::MapWindow => command == (XCommand::MapWindow { window }),
            XTask::QueryDevices => command == (XCommand::XIQueryDevice {
                major_opcode: self.info.extensions.input->0,
                deviceid: ALL_DEVICES,
            }),
            XTask::QueryKeymap { .. } => command == XCommand::QueryKeymap,
            XTask::FakeRelease { test_opcode, keycode } => command == (XCommand::FakeInput {
                major_opcode: test_opcode,
                type_: KEY_RELEASE_NUMBER,
                detail: keycode,
                time: NONE,
                root: NONE,
                deviceid: 0,
            }),
            XTask::GrabKeyboard => command == (XCommand::GrabKeyboard {
                owner_events: false,
                grab_window: window,
                time: NONE,
            }),
            XTask::GrabPointer { confine } => command == (XCommand::GrabPointer {
                owner_events: false,
                grab_window: window,
                event_mask: GRAB_EVENTS,
                confine_to: if confine {
                    window
                } else {
                    NONE
                },
                cursor: NONE,
                time: NONE,
            }),
            XTask::SelectDevices => false,
            XTask::UngrabKeyboard => command == (XCommand::UngrabKeyboard { time: NONE }),
            XTask::UngrabPointer => command == (XCommand::UngrabPointer { time: NONE }),
            XTask::UpdateGrab { grab } => command matches XCommand::XISelectEvents {
                major_opcode,
                window: w,
                masks,
            } && major_opcode == self.info.extensions.input->0 && w
                == self.info.setup.roots@[self.info.screen as int].root && masks@ == masks_of(
                self.grab_devices@,
                self.devices@,
                grab,
            ),
            XTask::KeyboardMapping => command == (XCommand::GetKeyboardMapping {
                first_keycode: self.info.setup.min_keycode,
                count: (self.info.setup.max_keycode - self.info.setup.min_keycode) as u8,
            }),
            XTask::ModifierMapping => command == XCommand::GetModifierMapping,
            XTask::Visibility { dpms_opcode, state } => command == (XCommand::DpmsInfo {
                major_opcode: dpms_opcode,
            }),
            XTask::WmState { window: w } => command == (XCommand::GetProperty {
                delete: false,
                window: w,
                property: atoms.wm_state,
                type_: NONE,
                long_offset: 0,
                long_length: 1,
            }),
            XTask::AtomName { atom } => command == (XCommand::GetAtomName { atom }),
        }
    }

    /// A session that has nothing to do yet.
    pub fn new(info: XInfo, keys: KeyboardMapping, mods: ModifierMapping) -> (context: XContext)
        ensures
            context.info == info,
            context.keys == keys,
            context.mods == mods,
            context.devices@ == Map::<u16, XIDeviceInfo>::empty(),
            context.grab_devices@.len() == 0,
            context.requested_devices@.len() == 0,
            context.valuators@ == Map::<u32, Valuator>::empty(),
            context.state == (XState { running: false, grabbed: false }),
            context.event_queue.queued() == Seq::<XEvent>::empty(),
            context.event_queue.motion.is_still(),
            context.event_queue.position == Position::unknown(),
            context.tasks@.len() == 0,
            context.waiting is Nothing,
    {
        XContext {
            info,
            keys,
            mods,
            devices: BTreeMap::new(),
            grab_devices: Vec::new(),
            requested_devices: Vec::new(),
            valuators: BTreeMap::new(),
            state: XState { running: false, grabbed: false },
            event_queue: XEventQueue::default(),
            tasks: Vec::new(),
            waiting: XWait::Nothing,
        }
    }

    /// The screen that the window is on.
    pub fn screen(&self) -> (screen: &Screen)
        requires
            self.info.wf(),
        ensures
            *screen == self.info.setup.roots@[self.info.screen as int],
    {
        &self.info.setup.roots[self.info.screen]
    }

    /// The request that names the window.
    pub fn set_wm_name(&self, name: &str) -> (command: XCommand)
        ensures
            sets_text(command, self.info.window, ATOM_WM_NAME, encode_utf8(name@)),
    {
        XCommand::ChangeProperty {
            mode: PropMode::Replace,
            window: self.info.window,
            property: ATOM_WM_NAME,
            type_: ATOM_STRING,
            data: PropertyData::Data8(vstd::slice::slice_to_vec(name.as_bytes())),
        }
    }

    /// The request that gives the window its instance and its class, which a
    /// zero byte parts.
    pub fn set_wm_class(&self, instance: &str, class: &str) -> (command: XCommand)
        ensures
            sets_text(
                command,
                self.info.window,
                ATOM_WM_CLASS,
                encode_utf8(instance@).push(0u8) + encode_utf8(class@),
            ),
    {
        let mut data = vstd::slice::slice_to_vec(instance.as_bytes());
        data.push(0);
        let mut rest = vstd::slice::slice_to_vec(class.as_bytes());
        data.append(&mut rest);
        XCommand::ChangeProperty {
            mode: PropMode::Replace,
            window: self.info.window,
            property: ATOM_WM_CLASS,
            type_: ATOM_STRING,
            data: PropertyData::Data8(data),
        }
    }

    /// Shows the window, which covers the screen and can be closed.
    pub fn map_window(&mut self)
        ensures
            final(self).tasks@ == old(self).tasks@ + seq![
                XTask::SetProtocols,
                XTask::SetFullscreen,
                XTask::QueryDevices,
                XTask::MapWindow,
            ],
            final(self).info == old(self).info,
            final(self).same_mappings(*old(self)),
            final(self).same_devices(*old(self)),
            final(self).grab_devices == old(self).grab_devices,
            final(self).requested_devices == old(self).requested_devices,
            final(self).state == old(self).state,
            final(self).event_queue == old(self).event_queue,
            final(self).waiting == old(self).waiting,
    {
        self.tasks.push(XTask::SetProtocols);
        self.tasks.push(XTask::SetFullscreen);
        self.tasks.push(XTask::QueryDevices);
        self.tasks.push(XTask::MapWindow);
    }

    /// A keycode, counted from the lowest one.
    pub fn keycode(&self, code: u8) -> (keycode: u8)
        requires
            code >= self.info.setup.min_keycode,
        ensures
            keycode == code - self.info.setup.min_keycode,
    {
        code - self.info.setup.min_keycode
    }

    /// The first symbol of a key that counts from the lowest keycode.
    pub fn keysym(&self, code: u8) -> (keysym: Option<u32>)
        ensures
            keysym == symbol_of(self.keys, code),
    {
        first_symbol(&self.keys, code)
    }

    /// Ends the session.
    pub fn stop(&mut self)
        ensures
            final(self).state == (XState { running: false, ..old(self).state }),
            final(self).info == old(self).info,
            final(self).same_mappings(*old(self)),
            final(self).same_devices(*old(self)),
            final(self).grab_devices == old(self).grab_devices,
            final(self).requested_devices == old(self).requested_devices,
            final(self).event_queue == old(self).event_queue,
            final(self).tasks == old(self).tasks,
            final(self).waiting == old(self).waiting,
    {
        self.state.running = false;
    }

    fn handle_grab_status(&self, status: GrabStatus) -> (r: Result<(), XError>)
        ensures
            r == if status is Success {
                Ok(())
            } else {
                Err(XError::GrabFailed(status))
            },
    {
        match status {
            GrabStatus::Success => Ok(()),
            _ => Err(XError::GrabFailed(status)),
        }
    }

    /// Takes up a request. A grab without devices is one of all devices.
    pub fn process_request(&mut self, request: XRequest)
        ensures
            final(self).tasks@ == old(self).tasks@ + request_tasks(
                request,
                old(self).info.extensions,
            ),
            final(self).state.running == (old(self).state.running && !(request is Quit)),
            final(self).state.grabbed == old(self).state.grabbed,
            request matches XRequest::Grab { xcore, confine, motion, devices } ==> {
                if devices@.len() == 0 {
                    &&& final(self).requested_devices@.len() == 1
                    &&& final(self).requested_devices@[0].fits_all()
                    &&& !final(self).requested_devices@[0].master
                } else {
                    final(self).requested_devices == devices
                }
            },
            !(request is Grab) ==> final(self).requested_devices == old(self).requested_devices,
            final(self).grab_devices == old(self).grab_devices,
            final(self).info == old(self).info,
            final(self).same_mappings(*old(self)),
            final(self).same_devices(*old(self)),
            final(self).event_queue == old(self).event_queue,
            final(self).waiting == old(self).waiting,
    {
        let ghost added = request_tasks(request, self.info.extensions);
        match request {
            XRequest::Quit => {
                self.stop();
            },
            XRequest::UnstickHost => {
                if let Some(test_opcode) = self.info.extensions.test {
                    self.tasks.push(XTask::QueryKeymap { test_opcode });
                }
            },
            XRequest::Grab { xcore, confine, motion, devices } => {
                if xcore {
                    self.tasks.push(XTask::GrabKeyboard);
                    self.tasks.push(XTask::GrabPointer { confine });
                }
                self.requested_devices = if devices.len() == 0 {
                    let mut all: Vec<ConfigInputDevice> = Vec::new();
                    all.push(ConfigInputDevice::default());
                    all
                } else {
                    devices
                };
                self.tasks.push(XTask::SelectDevices);
                if motion {
                    self.tasks.push(XTask::UpdateGrab { grab: true });
                }
            },
            XRequest::Ungrab => {
                self.tasks.push(XTask::UngrabKeyboard);
                self.tasks.push(XTask::UngrabPointer);
                self.tasks.push(XTask::UpdateGrab { grab: false });
            },
        }
        assert(self.tasks@ =~= old(self).tasks@ + added);
    }

    fn grab_masks(&self, grab: bool) -> (masks: Vec<DeviceMask>)
        ensures
            masks@ == masks_of(self.grab_devices@, self.devices@, grab),
    {
        let mut masks: Vec<DeviceMask> = Vec::new();
        let ghost specs = self.grab_devices@;
        for i in 0..self.grab_devices.len()
            invariant
                specs == self.grab_devices@,
                masks@ == masks_of(specs.take(i as int), self.devices@, grab),
        {
            assert(specs.take(i + 1).drop_last() =~= specs.take(i as int));
            if let Some(deviceid) = find_target(&self.devices, &self.grab_devices[i]) {
                masks.push(
                    DeviceMask {
                        deviceid,
                        mask: if grab {
                            XIEventMask::RawMotion
                        } else {
                            XIEventMask::Nothing
                        },
                    },
                );
            }
        }
        assert(specs.take(specs.len() as int) =~= specs);
        masks
    }

    /// The request that a task stands for, if it stands for one.
    fn command_for(&self, task: XTask) -> (command: Option<XCommand>)
        requires
            self.info.wf(),
        ensures
            command is Some <==> sends(task, self.info.extensions),
            command matches Some(c) ==> self.asks(task, c),
    {
        let window = self.info.window;
        let command = match task {
            XTask::SetProtocols => {
                let mut data: Vec<u32> = Vec::new();
                data.push(self.info.atoms.wm_delete_window);
                XCommand::ChangeProperty {
                    mode: PropMode::Replace,
                    window,
                    property: self.info.atoms.wm_protocols,
                    type_: ATOM_ATOM,
                    data: PropertyData::Data32(data),
                }
            },
            XTask::SetFullscreen => {
                let mut data: Vec<u32> = Vec::new();
                data.push(self.info.atoms.net_wm_state_fullscreen);
                XCommand::ChangeProperty {
                    mode: PropMode::Append,
                    window,
                    property: self.info.atoms.net_wm_state,
                    type_: ATOM_ATOM,
                    data: PropertyData::Data32(data),
                }
            },
            XTask::MapWindow => XCommand::MapWindow { window },
            XTask::QueryDevices => {
                match self.info.extensions.input {
                    Some(major_opcode) => XCommand::XIQueryDevice {
                        major_opcode,
                        deviceid: ALL_DEVICES,
                    },
                    None => {
                        return None;
                    },
                }
            },
            XTask::SelectDevices => {
                return None;
            },
            XTask::QueryKeymap { .. } => XCommand::QueryKeymap,
            XTask::FakeRelease { test_opcode, keycode } => XCommand::FakeInput {
                major_opcode: test_opcode,
                type_: KEY_RELEASE_NUMBER,
                detail: keycode,
                time: NONE,
                root: NONE,
                deviceid: 0,
            },
            XTask::GrabKeyboard => XCommand::GrabKeyboard {
                owner_events: false,
                grab_window: window,
                time: NONE,
            },
            XTask::GrabPointer { confine } => XCommand::GrabPointer {
                owner_events: false,
                grab_window: window,
                event_mask: GRAB_EVENTS,
                confine_to: if confine {
                    window
                } else {
                    NONE
                },
                cursor: NONE,
                time: NONE,
            },
            XTask::UngrabKeyboard => XCommand::UngrabKeyboard { time: NONE },
            XTask::UngrabPointer => XCommand::UngrabPointer { time: NONE },
            XTask::UpdateGrab { grab } => {
                match self.info.extensions.input {
                    Some(major_opcode) => XCommand::XISelectEvents {
                        major_opcode,
                        window: self.screen().root,
                        masks: self.grab_masks(grab),
                    },
                    None => {
                        return None;
                    },
                }
            },
            XTask::KeyboardMapping => XCommand::GetKeyboardMapping {
                first_keycode: self.info.setup.min_keycode,
                count: self.info.setup.max_keycode - self.info.setup.min_keycode,
            },
            XTask::ModifierMapping => XCommand::GetModifierMapping,
            XTask::Visibility { dpms_opcode, .. } => XCommand::DpmsInfo {
                major_opcode: dpms_opcode,
            },
            XTask::WmState { window } => XCommand::GetProperty {
                delete: false,
                window,
                property: self.info.atoms.wm_state,
                type_: NONE,
                long_offset: 0,
                long_length: 1,
            },
            XTask::AtomName { atom } => XCommand::GetAtomName { atom },
        };
        Some(command)
    }

    /// Starts the next task.
    ///
    /// A task that needs no request is done at once: the requested devices
    /// become those to grab; and without the input extension motion counts as
    /// grabbed or not as asked, and there are no devices.
    pub fn next(&mut self) -> (action: XAction)
        requires
            old(self).info.wf(),
        ensures
            old(self).tasks@.len() == 0 ==> action is Idle && *final(self) == *old(self),
            old(self).tasks@.len() > 0 ==> {
                let task = old(self).tasks@[0];
                let sent = sends(task, old(self).info.extensions);
                &&& sent ==> (action matches XAction::Send(c) && old(self).asks(task, c))
                &&& !sent ==> action is Continue
                &&& final(self).waiting == if sent {
                    wait_of(task)
                } else {
                    XWait::Nothing
                }
                &&& final(self).tasks@ == old(self).followups(task) + old(self).tasks@.drop_first()
                &&& final(self).state == (XState {
                    grabbed: match task {
                        XTask::UpdateGrab { grab } => if sent {
                            old(self).state.grabbed
                        } else {
                            grab
                        },
                        _ => old(self).state.grabbed,
                    },
                    ..old(self).state
                })
                &&& final(self).grab_devices == if task is SelectDevices {
                    old(self).requested_devices
                } else {
                    old(self).grab_devices
                }
                &&& !(task is SelectDevices) ==> final(self).requested_devices == old(
                    self,
                ).requested_devices
                &&& if task is QueryDevices && !sent {
                    &&& final(self).devices@ == Map::<u16, XIDeviceInfo>::empty()
                    &&& final(self).valuators@ == Map::<u32, Valuator>::empty()
                } else {
                    final(self).same_devices(*old(self))
                }
            },
            final(self).info == old(self).info,
            final(self).same_mappings(*old(self)),
            final(self).event_queue == old(self).event_queue,
    {
        if self.tasks.len() == 0 {
            return XAction::Idle;
        }
        let command = self.command_for(self.tasks[0]);
        let task = self.tasks.remove(0);
        assert(self.tasks@ =~= old(self).tasks@.drop_first());
        match command {
            Some(command) => {
                self.waiting = match task {
                    XTask::QueryDevices => XWait::Devices,
                    XTask::QueryKeymap { test_opcode } => XWait::Keymap { test_opcode },
                    XTask::GrabKeyboard | XTask::GrabPointer { .. } => XWait::Grab,
                    XTask::UpdateGrab { grab } => XWait::Grabbed(grab),
                    XTask::KeyboardMapping => XWait::KeyboardMapping,
                    XTask::ModifierMapping => XWait::ModifierMapping,
                    XTask::Visibility { state, .. } => XWait::Visibility(state),
                    XTask::WmState { .. } => XWait::WmState,
                    _ => XWait::Done,
                };
                assert(self.tasks@ =~= old(self).followups(task) + old(self).tasks@.drop_first());
                XAction::Send(command)
            },
            None => {
                self.waiting = XWait::Nothing;
                match task {
                    XTask::SelectDevices => {
                        let mut devices: Vec<ConfigInputDevice> = Vec::new();
                        std::mem::swap(&mut devices, &mut self.requested_devices);
                        self.grab_devices = devices;
                    },
                    XTask::UpdateGrab { grab } => {
                        self.state.grabbed = grab;
                    },
                    _ => {
                        self.update_devices(Vec::new());
                    },
                }
                assert(self.tasks@ =~= old(self).followups(task) + old(self).tasks@.drop_first());
                XAction::Continue
            },
        }
    }

    /// What a task that is done at once leaves to do.
    pub open spec fn followups(self, task: XTask) -> Seq<XTask> {
        if task is QueryDevices && self.info.extensions.input is None && self.state.grabbed {
            seq![XTask::UpdateGrab { grab: true }]
        } else {
            Seq::empty()
        }
    }

    /// Takes note of the input devices. Where motion is grabbed, it is grabbed
    /// anew.
    fn update_devices(&mut self, infos: Vec<XIDeviceInfo>)
        ensures
            final(self).devices@ == devices_by_id(infos@),
            final(self).valuators@ == valuators_of(final(self).devices@),
            final(self).tasks@ == if old(self).state.grabbed {
                seq![XTask::UpdateGrab { grab: true }] + old(self).tasks@
            } else {
                old(self).tasks@
            },
            final(self).info == old(self).info,
            final(self).same_mappings(*old(self)),
            final(self).grab_devices == old(self).grab_devices,
            final(self).requested_devices == old(self).requested_devices,
            final(self).state == old(self).state,
            final(self).event_queue == old(self).event_queue,
            final(self).waiting == old(self).waiting,
    {
        self.devices = collect_devices(infos);
        self.valuators = collect_valuators(&self.devices);
        if self.state.grabbed {
            self.tasks.insert(0, XTask::UpdateGrab { grab: true });
        }
        assert(self.state.grabbed ==> self.tasks@ =~= seq![XTask::UpdateGrab { grab: true }]
            + old(self).tasks@);
    }

    /// Takes the reply to the last request.
    ///
    /// A grab that the server refuses ends the session with an error. A window
    /// is hidden where its screen is off, and where the window manager has
    /// withdrawn or iconified it.
    pub fn reply(&mut self, reply: XReply) -> (r: Result<(), XError>)
        requires
            answers(reply, old(self).waiting),
        ensures
            r == match reply {
                XReply::Grab(status) => if status is Success {
                    Ok(())
                } else {
                    Err(XError::GrabFailed(status))
                },
                _ => Ok(()),
            },
            final(self).waiting is Nothing,
            final(self).tasks@ == old(self).consequences(reply) + old(self).tasks@,
            final(self).state == (XState {
                grabbed: match old(self).waiting {
                    XWait::Grabbed(grab) => grab,
                    _ => old(self).state.grabbed,
                },
                ..old(self).state
            }),
            final(self).event_queue.model() == (match reply {
                XReply::PowerOn(on) => old(self).event_queue.model().pushed(
                    XEvent::Visible(on && !(old(self).waiting->Visibility_0 is FullyObscured)),
                ),
                XReply::Property(Some(state)) => if state == 0 || state == 3 {
                    old(self).event_queue.model().pushed(XEvent::Visible(false))
                } else {
                    old(self).event_queue.model()
                },
                _ => old(self).event_queue.model(),
            }),
            match reply {
                XReply::Devices(infos) => {
                    &&& final(self).devices@ == devices_by_id(infos@)
                    &&& final(self).valuators@ == valuators_of(final(self).devices@)
                },
                _ => final(self).same_devices(*old(self)),
            },
            final(self).keys == match reply {
                XReply::KeyboardMapping(keys) => keys,
                _ => old(self).keys,
            },
            final(self).mods == match reply {
                XReply::ModifierMapping(mods) => mods,
                _ => old(self).mods,
            },
            final(self).info == old(self).info,
            final(self).grab_devices == old(self).grab_devices,
            final(self).requested_devices == old(self).requested_devices,
    {
        let waiting = self.waiting;
        let ghost before = self.tasks@;
        let ghost consequences = self.consequences(reply);
        self.waiting = XWait::Nothing;
        match reply {
            XReply::Done => {
                if let XWait::Grabbed(grab) = waiting {
                    self.state.grabbed = grab;
                }
            },
            XReply::Grab(status) => {
                assert(self.tasks@ =~= consequences + before);
                return self.handle_grab_status(status);
            },
            XReply::Keymap(keys) => {
                if let XWait::Keymap { test_opcode } = waiting {
                    let mut tasks = key_releases(&keys, test_opcode);
                    std::mem::swap(&mut tasks, &mut self.tasks);
                    self.tasks.append(&mut tasks);
                }
            },
            XReply::Devices(infos) => {
                self.update_devices(infos);
            },
            XReply::KeyboardMapping(keys) => {
                self.keys = keys;
            },
            XReply::ModifierMapping(mods) => {
                self.mods = mods;
            },
            XReply::PowerOn(on) => {
                if let XWait::Visibility(state) = waiting {
                    self.event_queue.push(
                        if !on {
                            XEvent::Visible(false)
                        } else {
                            visible(state)
                        },
                    );
                }
            },
            XReply::Property(value) => {
                if let Some(state) = value {
                    if state == WINDOW_STATE_WITHDRAWN || state == WINDOW_STATE_ICONIC {
                        self.event_queue.push(XEvent::Visible(false));
                    }
                }
            },
        }
        assert(self.tasks@ =~= consequences + before);
        Ok(())
    }

    /// What a reply leaves to do before everything else.
    pub open spec fn consequences(self, reply: XReply) -> Seq<XTask> {
        match (self.waiting, reply) {
            (XWait::Keymap { test_opcode }, XReply::Keymap(keys)) => releases_below(
                keys@,
                test_opcode,
                256,
            ),
            (XWait::Devices, XReply::Devices(_)) => if self.state.grabbed {
                seq![XTask::UpdateGrab { grab: true }]
            } else {
                Seq::empty()
            },
            _ => Seq::empty(),
        }
    }
}

/// The states of a window that the window manager has withdrawn or iconified.
pub const WINDOW_STATE_WITHDRAWN: u32 = 0;

pub const WINDOW_STATE_ICONIC: u32 = 3;

/// A window is visible unless all of it is obscured.
fn visible(state: Visibility) -> (event: XEvent)
    ensures
        event == XEvent::Visible(!(state is FullyObscured)),
{
    match state {
        Visibility::FullyObscured => XEvent::Visible(false),
        Visibility::Unobscured => XEvent::Visible(true),
        Visibility::PartiallyObscured => XEvent::Visible(true),
    }
}

/// The axes whose bits are set in the words of a mask, word by word.
pub open spec fn axes_of(mask: Seq<u32>) -> Seq<usize>
    decreases mask.len(),
{
    if mask.len() == 0 {
        Seq::empty()
    } else {
        axes_of(mask.drop_last()) + set_bits(mask.last())
    }
}

/// A raw value in units of a quarter.
pub open spec fn quarters(value: Fp3232) -> i32 {
    (quotient(value.units(), 0x4000_0000) as i64) as i32
}

/// The value with which a relative axis is reported: a pointer moves by the
/// smallest units, a wheel turns by whole ones.
pub open spec fn reported_value(axis: u16, count: i32) -> Fp3232 {
    if axis == REL_X || axis == REL_Y {
        if count < 0 {
            Fp3232 { integral: (-1int) as i32, frac: (0x1_0000_0000 + count) as u32 }
        } else {
            Fp3232 { integral: 0, frac: count as u32 }
        }
    } else {
        Fp3232 { integral: count, frac: 0 }
    }
}

fn report_value(axis: u16, count: i32) -> (value: Fp3232)
    ensures
        value == reported_value(axis, count),
{
    if axis == REL_X || axis == REL_Y {
        if count < 0 {
            Fp3232 { integral: -1, frac: (0x1_0000_0000i64 + count as i64) as u32 }
        } else {
            Fp3232 { integral: 0, frac: count as u32 }
        }
    } else {
        Fp3232 { integral: count, frac: 0 }
    }
}

/// A pointer is reported to move by exactly the quarters that it moved.
pub proof fn pointer_moves_by_quarters(axis: u16, count: i32)
    requires
        axis == REL_X || axis == REL_Y,
    ensures
        reported_value(axis, count).units() == count,
{
}

/// The motion that a raw value of an axis stands for; none where the axis is
/// unknown or no relative one.
pub open spec fn raw_motion(
    valuators: Map<u32, Valuator>,
    time: u32,
    deviceid: u16,
    axis: usize,
    raw: Fp3232,
) -> Option<XInputEvent> {
    let key = valuator_key(deviceid, axis as u16);
    if valuators.contains_key(key) && valuators[key].mode is Relative {
        match relative_axis(axis as u16) {
            Some(axis) => Some(
                XInputEvent {
                    time,
                    data: XInputEventData::MouseRelative {
                        axis,
                        value: reported_value(axis, quarters(raw)),
                    },
                },
            ),
            None => None,
        }
    } else {
        None
    }
}

/// The motions that the raw values of some axes stand for.
pub open spec fn raw_motions(
    valuators: Map<u32, Valuator>,
    time: u32,
    deviceid: u16,
    axes: Seq<usize>,
    raw: Seq<Fp3232>,
) -> Seq<XInputEvent>
    decreases axes.len(),
{
    if axes.len() == 0 {
        Seq::empty()
    } else {
        let before = raw_motions(valuators, time, deviceid, axes.drop_last(), raw);
        match raw_motion(valuators, time, deviceid, axes.last(), raw[axes.len() - 1]) {
            Some(event) => before.push(event),
            None => before,
        }
    }
}

/// Whether a raw motion has a value for each axis, and a mask that can be read.
pub open spec fn is_complete(event: RawMotionEvent) -> bool {
    &&& forall|i: int|
        0 <= i < event.valuator_mask@.len() ==> #[trigger] event.valuator_mask@[i] != 0x8000_0000
    &&& axes_of(event.valuator_mask@).len() <= event.axisvalues@.len()
    &&& axes_of(event.valuator_mask@).len() <= event.axisvalues_raw@.len()
}

impl XContext {
    /// A press or a release of a key, which counts from the lowest keycode.
    pub open spec fn key_event(self, event: InputDeviceEvent, pressed: bool) -> XInputEvent {
        let keycode = (event.detail - self.info.setup.min_keycode) as u8;
        XInputEvent {
            time: event.time,
            data: XInputEventData::Key {
                pressed,
                keycode,
                keysym: symbol_of(self.keys, keycode),
                state: event.state,
            },
        }
    }

    /// The input that an event of the server stands for. While motion is
    /// grabbed, the position of the pointer is none.
    pub open spec fn inputs_of(self, event: XServerEvent) -> Seq<XInputEvent> {
        match event {
            XServerEvent::ButtonPress(e) => seq![button_event(e.time, e.detail, e.state, true)],
            XServerEvent::ButtonRelease(e) => seq![button_event(e.time, e.detail, e.state, false)],
            XServerEvent::MotionNotify(e) => if self.state.grabbed {
                Seq::empty()
            } else {
                seq![
                    XInputEvent {
                        time: e.time,
                        data: XInputEventData::Mouse { x: e.event_x, y: e.event_y },
                    },
                ]
            },
            XServerEvent::KeyPress(e) => seq![self.key_event(e, true)],
            XServerEvent::KeyRelease(e) => seq![self.key_event(e, false)],
            XServerEvent::RawMotion(e) => if self.devices@.contains_key(e.deviceid) {
                raw_motions(
                    self.valuators@,
                    e.time,
                    e.deviceid,
                    axes_of(e.valuator_mask@),
                    e.axisvalues_raw@,
                )
            } else {
                Seq::empty()
            },
            _ => Seq::empty(),
        }
    }

    /// What an event of the server leaves to do.
    pub open spec fn tasks_of(self, event: XServerEvent) -> Seq<XTask> {
        match event {
            XServerEvent::VisibilityNotify { state } => match self.info.extensions.dpms {
                Some(dpms_opcode) => seq![XTask::Visibility { dpms_opcode, state }],
                None => Seq::empty(),
            },
            XServerEvent::ClientMessage { data: ClientMessageData::Data32 { first } } => if first
                == self.info.atoms.wm_delete_window {
                Seq::empty()
            } else {
                seq![XTask::AtomName { atom: first }]
            },
            XServerEvent::PropertyNotify { window, atom } => if atom == self.info.atoms.wm_state {
                seq![XTask::WmState { window }]
            } else {
                seq![XTask::AtomName { atom }]
            },
            XServerEvent::MappingNotify => seq![XTask::KeyboardMapping, XTask::ModifierMapping],
            XServerEvent::DevicePresenceNotify => seq![XTask::QueryDevices],
            _ => Seq::empty(),
        }
    }

    /// The queue after an event of the server.
    pub open spec fn queue_after(self, event: XServerEvent) -> QueueModel {
        let queue = self.event_queue.model();
        match event {
            XServerEvent::VisibilityNotify { state } => if self.info.extensions.dpms is None {
                queue.pushed(XEvent::Visible(!(state is FullyObscured)))
            } else {
                queue
            },
            XServerEvent::ClientMessage { data: ClientMessageData::Data32 { first } } => if first
                == self.info.atoms.wm_delete_window {
                queue.pushed(XEvent::Close)
            } else {
                queue
            },
            XServerEvent::ConfigureNotify { width, height } => QueueModel {
                position: Position { width, height, ..queue.position },
                ..queue
            },
            XServerEvent::FocusOut => queue.pushed(XEvent::Focus(false)),
            XServerEvent::FocusIn => queue.pushed(XEvent::Focus(true)),
            _ => queue.after_all(self.inputs_of(event)),
        }
    }

    /// Whether an event of the server can be processed: a message to the window
    /// consists of words, keycodes are not below the lowest one, a raw motion
    /// is complete, and motion stays within the machine's numbers.
    pub open spec fn can_process(self, event: XServerEvent) -> bool {
        &&& match event {
            XServerEvent::ClientMessage { data } => data is Data32,
            XServerEvent::KeyPress(e) | XServerEvent::KeyRelease(e) => e.detail
                >= self.info.setup.min_keycode,
            XServerEvent::RawMotion(e) => self.devices@.contains_key(e.deviceid) ==> is_complete(
                e,
            ),
            _ => true,
        }
        &&& self.event_queue.model().can_take_all(self.inputs_of(event))
    }

    fn valuator_info(&self, deviceid: u16) -> (info: Option<&XIDeviceInfo>)
        ensures
            info == if self.devices@.contains_key(deviceid) {
                Some(&self.devices@[deviceid])
            } else {
                None
            },
    {
        broadcast use group_btree_axioms;

        self.devices.get(&deviceid)
    }

    /// The motions that a raw motion stands for.
    fn raw_inputs(&self, event: &RawMotionEvent) -> (inputs: Vec<XInputEvent>)
        requires
            is_complete(*event),
        ensures
            inputs@ == raw_motions(
                self.valuators@,
                event.time,
                event.deviceid,
                axes_of(event.valuator_mask@),
                event.axisvalues_raw@,
            ),
    {
        broadcast use group_btree_axioms;

        let mut inputs: Vec<XInputEvent> = Vec::new();
        let mut used: usize = 0;
        let ghost masks = event.valuator_mask@;
        let ghost raw = event.axisvalues_raw@;
        for i in 0..event.valuator_mask.len()
            invariant
                masks == event.valuator_mask@,
                raw == event.axisvalues_raw@,
                is_complete(*event),
                used == axes_of(masks.take(i as int)).len(),
                inputs@ == raw_motions(
                    self.valuators@,
                    event.time,
                    event.deviceid,
                    axes_of(masks.take(i as int)),
                    raw,
                ),
        {
            let bits = iter_bits(event.valuator_mask[i]);
            let ghost before = axes_of(masks.take(i as int));
            proof {
                assert(masks.take(i + 1).drop_last() =~= masks.take(i as int));
                lemma_axes_grow(masks, i + 1);
                assert(before + bits@.take(0) =~= before);
            }
            for j in 0..bits.len()
                invariant
                    raw == event.axisvalues_raw@,
                    used == before.len() + j,
                    before.len() + bits@.len() <= raw.len(),
                    forall|k: int| 0 <= k < bits@.len() ==> #[trigger] bits@[k] < 32,
                    inputs@ == raw_motions(
                        self.valuators@,
                        event.time,
                        event.deviceid,
                        before + bits@.take(j as int),
                        raw,
                    ),
            {
                broadcast use group_btree_axioms;

                let axis = bits[j];
                let value_raw = event.axisvalues_raw[used];
                let ghost axes = before + bits@.take(j + 1);
                proof {
                    assert(axes.drop_last() =~= before + bits@.take(j as int));
                    assert(axes.last() == axis);
                    assert(axes.len() - 1 == used);
                }
                assert(used < event.axisvalues_raw.len());
                used = used + 1;
                if let Some(valuator) = self.valuators.get(
                    &make_valuator_key(event.deviceid, axis as u16),
                ) {
                    if let ValuatorMode::Relative = valuator.mode {
                        if let Some(axis) = find_relative_axis(axis as u16) {
                            let value = value_raw.fixed_point();
                            proof {
                                assert(-0x8000_0000_0000_0000 <= value_raw.units()
                                    <= 0x7fff_ffff_ffff_ffff);
                            }
                            let count: i64 = if value < 0 {
                                -((-(value as i128)) / 0x4000_0000) as i64
                            } else {
                                value / 0x4000_0000
                            };
                            let count = #[verifier::truncate]
                            (count as i32);
                            inputs.push(
                                XInputEvent {
                                    time: event.time,
                                    data: XInputEventData::MouseRelative {
                                        axis,
                                        value: report_value(axis, count),
                                    },
                                },
                            );
                        }
                    }
                }
            }
            assert(bits@.take(bits@.len() as int) =~= bits@);
        }
        assert(masks.take(masks.len() as int) =~= masks);
        inputs
    }

    fn press_event(&self, event: &InputDeviceEvent, pressed: bool) -> (e: XInputEvent)
        requires
            event.detail >= self.info.setup.min_keycode,
        ensures
            e == self.key_event(*event, pressed),
    {
        let keycode = self.keycode(event.detail);
        let keysym = self.keysym(keycode);
        XInputEvent {
            time: event.time,
            data: XInputEventData::Key { pressed, keycode, keysym, state: event.state },
        }
    }

    /// Whether an event of the server can be processed.
    pub fn accepts_event(&self, event: &XServerEvent) -> (accepts: bool)
        ensures
            accepts == self.can_process(*event),
    {
        let mut inputs: Vec<XInputEvent> = Vec::new();
        match event {
            XServerEvent::ClientMessage { data } => {
                match data {
                    ClientMessageData::Data32 { .. } => {},
                    _ => {
                        return false;
                    },
                }
            },
            XServerEvent::KeyPress(e) => {
                if e.detail < self.info.setup.min_keycode {
                    return false;
                }
                inputs.push(self.press_event(e, true));
            },
            XServerEvent::KeyRelease(e) => {
                if e.detail < self.info.setup.min_keycode {
                    return false;
                }
                inputs.push(self.press_event(e, false));
            },
            XServerEvent::ButtonPress(e) => {
                inputs.push(
                    XInputEvent {
                        time: e.time,
                        data: XInputEventData::Button {
                            pressed: true,
                            button: e.detail,
                            state: e.state,
                        },
                    },
                );
            },
            XServerEvent::ButtonRelease(e) => {
                inputs.push(
                    XInputEvent {
                        time: e.time,
                        data: XInputEventData::Button {
                            pressed: false,
                            button: e.detail,
                            state: e.state,
                        },
                    },
                );
            },
            XServerEvent::MotionNotify(e) => {
                if !self.state.grabbed {
                    inputs.push(
                        XInputEvent {
                            time: e.time,
                            data: XInputEventData::Mouse { x: e.event_x, y: e.event_y },
                        },
                    );
                }
            },
            XServerEvent::RawMotion(e) => {
                if self.valuator_info(e.deviceid).is_some() {
                    if !raw_motion_is_complete(e) {
                        return false;
                    }
                    inputs = self.raw_inputs(e);
                }
            },
            _ => {},
        }
        assert(inputs@ =~= self.inputs_of(*event));
        self.event_queue.accepts_all(&inputs)
    }

    /// Takes up an event of the server. An event of a device that is not known
    /// is an error.
    pub fn process_event(&mut self, event: &XServerEvent) -> (r: Result<(), XError>)
        requires
            old(self).can_process(*event),
        ensures
            r == match *event {
                XServerEvent::RawMotion(e) => if old(self).devices@.contains_key(e.deviceid) {
                    Ok(())
                } else {
                    Err(XError::UnknownDevice(e.deviceid))
                },
                _ => Ok(()),
            },
            final(self).event_queue.model() == old(self).queue_after(*event),
            final(self).tasks@ == old(self).tasks@ + old(self).tasks_of(*event),
            final(self).info == old(self).info,
            final(self).same_mappings(*old(self)),
            final(self).same_devices(*old(self)),
            final(self).grab_devices == old(self).grab_devices,
            final(self).requested_devices == old(self).requested_devices,
            final(self).state == old(self).state,
            final(self).waiting == old(self).waiting,
    {
        let ghost before = self.tasks@;
        let ghost added = self.tasks_of(*event);
        let ghost inputs = self.inputs_of(*event);
        proof {
            reveal_with_fuel(QueueModel::after_all, 2);
            reveal_with_fuel(QueueModel::can_take_all, 2);
            assert(inputs.len() == 1 ==> inputs.drop_last() =~= Seq::<XInputEvent>::empty());
        }
        match event {
            XServerEvent::VisibilityNotify { state } => {
                match self.info.extensions.dpms {
                    Some(dpms_opcode) => {
                        self.tasks.push(XTask::Visibility { dpms_opcode, state: *state });
                    },
                    None => {
                        self.event_queue.push(visible(*state));
                    },
                }
            },
            XServerEvent::ClientMessage { data } => {
                if let ClientMessageData::Data32 { first } = *data {
                    if first == self.info.atoms.wm_delete_window {
                        self.event_queue.push(XEvent::Close);
                    } else {
                        self.tasks.push(XTask::AtomName { atom: first });
                    }
                }
            },
            XServerEvent::PropertyNotify { window, atom } => {
                if *atom == self.info.atoms.wm_state {
                    self.tasks.push(XTask::WmState { window: *window });
                } else {
                    self.tasks.push(XTask::AtomName { atom: *atom });
                }
            },
            XServerEvent::MappingNotify => {
                self.tasks.push(XTask::KeyboardMapping);
                self.tasks.push(XTask::ModifierMapping);
            },
            XServerEvent::ConfigureNotify { width, height } => {
                self.event_queue.set_size(*width, *height);
            },
            XServerEvent::FocusOut => {
                self.event_queue.push(XEvent::Focus(false));
            },
            XServerEvent::FocusIn => {
                self.event_queue.push(XEvent::Focus(true));
            },
            XServerEvent::ButtonPress(e) => {
                self.event_queue.push_x_event(
                    &XInputEvent {
                        time: e.time,
                        data: XInputEventData::Button {
                            pressed: true,
                            button: e.detail,
                            state: e.state,
                        },
                    },
                );
            },
            XServerEvent::ButtonRelease(e) => {
                self.event_queue.push_x_event(
                    &XInputEvent {
                        time: e.time,
                        data: XInputEventData::Button {
                            pressed: false,
                            button: e.detail,
                            state: e.state,
                        },
                    },
                );
            },
            XServerEvent::MotionNotify(e) => {
                if !self.state.grabbed {
                    self.event_queue.push_x_event(
                        &XInputEvent {
                            time: e.time,
                            data: XInputEventData::Mouse { x: e.event_x, y: e.event_y },
                        },
                    );
                }
            },
            XServerEvent::KeyPress(e) => {
                let input = self.press_event(e, true);
                self.event_queue.push_x_event(&input);
            },
            XServerEvent::KeyRelease(e) => {
                let input = self.press_event(e, false);
                self.event_queue.push_x_event(&input);
            },
            XServerEvent::RawMotion(e) => {
                if self.valuator_info(e.deviceid).is_none() {
                    assert(self.tasks@ =~= before + added);
                    return Err(XError::UnknownDevice(e.deviceid));
                }
                let inputs = self.raw_inputs(e);
                self.event_queue.push_x_events(&inputs);
            },
            XServerEvent::DevicePresenceNotify => {
                self.tasks.push(XTask::QueryDevices);
            },
            XServerEvent::Other => {},
        }
        assert(self.tasks@ =~= before + added);
        Ok(())
    }
}

fn raw_motion_is_complete(event: &RawMotionEvent) -> (complete: bool)
    ensures
        complete == is_complete(*event),
{
    let ghost masks = event.valuator_mask@;
    let available = if event.axisvalues.len() < event.axisvalues_raw.len() {
        event.axisvalues.len()
    } else {
        event.axisvalues_raw.len()
    };
    let mut used: usize = 0;
    for i in 0..event.valuator_mask.len()
        invariant
            masks == event.valuator_mask@,
            used <= available,
            available <= event.axisvalues@.len(),
            available <= event.axisvalues_raw@.len(),
            available == event.axisvalues@.len() || available == event.axisvalues_raw@.len(),
            used == axes_of(masks.take(i as int)).len(),
            forall|k: int| 0 <= k < i ==> #[trigger] masks[k] != 0x8000_0000,
    {
        if event.valuator_mask[i] == 0x8000_0000 {
            return false;
        }
        let bits = iter_bits(event.valuator_mask[i]);
        proof {
            assert(masks.take(i + 1).drop_last() =~= masks.take(i as int));
            lemma_axes_grow(masks, i + 1);
        }
        if available - used < bits.len() {
            return false;
        }
        used = used + bits.len();
    }
    assert(masks.take(masks.len() as int) =~= masks);
    true
}

/// Unsticking the host releases exactly the keys that are down.
pub proof fn releases_are_the_keys_down(keys: Seq<u8>, test_opcode: u8, keycode: u8)
    requires
        keys.len() == 32,
    ensures
        releases_below(keys, test_opcode, 256).contains(
            XTask::FakeRelease { test_opcode, keycode },
        ) <==> key_is_down(keys, keycode as int),
{
    lemma_releases_below(keys, test_opcode, keycode, 256);
}

proof fn lemma_releases_below(keys: Seq<u8>, test_opcode: u8, keycode: u8, bound: nat)
    requires
        bound <= 256,
    ensures
        releases_below(keys, test_opcode, bound).contains(
            XTask::FakeRelease { test_opcode, keycode },
        ) <==> keycode < bound && key_is_down(keys, keycode as int),
    decreases bound,
{
    let task = XTask::FakeRelease { test_opcode, keycode };
    let all = releases_below(keys, test_opcode, bound);
    if bound > 0 {
        let shorter = releases_below(keys, test_opcode, (bound - 1) as nat);
        lemma_releases_below(keys, test_opcode, keycode, (bound - 1) as nat);
        if shorter.contains(task) {
            let i = choose|i: int| 0 <= i < shorter.len() && shorter[i] == task;
            assert(all[i] == task);
        }
        if all.contains(task) {
            let i = choose|i: int| 0 <= i < all.len() && all[i] == task;
            if i < shorter.len() {
                assert(shorter[i] == task);
            }
        }
        if keycode == bound - 1 && key_is_down(keys, keycode as int) {
            assert(all[all.len() - 1] == task);
        }
    }
}

/// While motion is grabbed, the position of the pointer changes nothing.
pub proof fn grabbed_pointer_is_ignored(context: XContext, event: MotionNotifyEvent)
    requires
        context.state.grabbed,
    ensures
        context.can_process(XServerEvent::MotionNotify(event)),
        context.queue_after(XServerEvent::MotionNotify(event)) == context.event_queue.model(),
        context.tasks_of(XServerEvent::MotionNotify(event)) == Seq::<XTask>::empty(),
{
}

proof fn lemma_axes_grow(masks: Seq<u32>, n: int)
    requires
        0 <= n <= masks.len(),
    ensures
        axes_of(masks.take(n)).len() <= axes_of(masks).len(),
    decreases masks.len() - n,
{
    if n == masks.len() {
        assert(masks.take(n) =~= masks);
    } else {
        lemma_axes_grow(masks, n + 1);
        assert(masks.take(n + 1).drop_last() =~= masks.take(n));
    }
}

/// Whether two sessions differ in nothing but in their queue and in their tasks.
pub open spec fn same_but_queue_and_tasks(a: XContext, b: XContext) -> bool {
    &&& a.info == b.info
    &&& a.keys == b.keys
    &&& a.mods == b.mods
    &&& a.devices == b.devices
    &&& a.valuators == b.valuators
    &&& a.grab_devices == b.grab_devices
    &&& a.requested_devices == b.requested_devices
    &&& a.state == b.state
    &&& a.waiting == b.waiting
}

/// Whether a queue is another one with an event at its end.
pub open spec fn has_queued(before: XEventQueue, event: XEvent, after: XEventQueue) -> bool {
    &&& after.event_queue@ == before.event_queue@.push(event)
    &&& same_motion(before, after)
    &&& after.position == before.position
}

/// Whether the same motion is pending.
pub open spec fn same_motion(before: XEventQueue, after: XEventQueue) -> bool {
    after.motion.x@ == before.motion.x@ && after.motion.y@ == before.motion.y@
}

/// Whether the same events are queued, and the same motion is pending.
pub open spec fn same_queue(before: XEventQueue, after: XEventQueue) -> bool {
    &&& after.event_queue@ == before.event_queue@
    &&& same_motion(before, after)
    &&& after.position == before.position
}

/// The window tells of its focus, and of the request to close it, at once; it tells
/// that it is visible unless all of it is obscured, at once where the screen cannot
/// be off, and else once it is known whether it is. A change of its size changes
/// where the pointer lies.
pub proof fn window_events_are_told(
    before: XContext,
    event: XServerEvent,
    r: Result<(), XError>,
    after: XContext,
)
    requires
        before.can_process(event),
        exists|this: &mut XContext| #[trigger]
            call_ensures(XContext::process_event, (this, &event), r) && *this == before
                && *final(this) == after,
        !(event is RawMotion || event is KeyPress || event is KeyRelease || event is ButtonPress
            || event is ButtonRelease || event is MotionNotify),
    ensures
        r is Ok,
        same_but_queue_and_tasks(before, after),
        event is FocusIn ==> has_queued(before.event_queue, XEvent::Focus(true), after.event_queue)
            && after.tasks@ == before.tasks@,
        event is FocusOut ==> has_queued(
            before.event_queue,
            XEvent::Focus(false),
            after.event_queue,
        ) && after.tasks@ == before.tasks@,
        event matches XServerEvent::VisibilityNotify { state } ==> match before.info.extensions.dpms {
            None => has_queued(
                before.event_queue,
                XEvent::Visible(state is Unobscured || state is PartiallyObscured),
                after.event_queue,
            ) && after.tasks@ == before.tasks@,
            Some(dpms_opcode) => same_queue(before.event_queue, after.event_queue) && after.tasks@
                == before.tasks@ + seq![XTask::Visibility { dpms_opcode, state }],
        },
        event matches XServerEvent::ClientMessage { data: ClientMessageData::Data32 { first } } ==> {
            if first == before.info.atoms.wm_delete_window {
                has_queued(before.event_queue, XEvent::Close, after.event_queue) && after.tasks@
                    == before.tasks@
            } else {
                same_queue(before.event_queue, after.event_queue) && after.tasks@ == before.tasks@
                    + seq![XTask::AtomName { atom: first }]
            }
        },
        event matches XServerEvent::ConfigureNotify { width, height } ==> {
            &&& after.event_queue.event_queue@ == before.event_queue.event_queue@
            &&& same_motion(before.event_queue, after.event_queue)
            &&& after.event_queue.position.width == width
            &&& after.event_queue.position.height == height
            &&& after.event_queue.position.last_x == before.event_queue.position.last_x
            &&& after.event_queue.position.last_y == before.event_queue.position.last_y
            &&& after.event_queue.position.bounds == before.event_queue.position.bounds
            &&& after.tasks@ == before.tasks@
        },
        event matches XServerEvent::PropertyNotify { window, atom } ==> {
            &&& same_queue(before.event_queue, after.event_queue)
            &&& after.tasks@ == before.tasks@ + seq![
                if atom == before.info.atoms.wm_state {
                    XTask::WmState { window }
                } else {
                    XTask::AtomName { atom }
                },
            ]
        },
        event is MappingNotify ==> same_queue(before.event_queue, after.event_queue) && after.tasks@
            == before.tasks@ + seq![XTask::KeyboardMapping, XTask::ModifierMapping],
        event is DevicePresenceNotify ==> same_queue(before.event_queue, after.event_queue)
            && after.tasks@ == before.tasks@ + seq![XTask::QueryDevices],
        event is Other ==> same_queue(before.event_queue, after.event_queue) && after.tasks@
            == before.tasks@,
{
    reveal_with_fuel(QueueModel::after_all, 2);
    assert(before.tasks@ + Seq::<XTask>::empty() =~= before.tasks@);
}

/// Keys, counted from the lowest keycode, buttons and the place of the pointer are
/// queued as the input that they are. While motion is grabbed, the place of the
/// pointer is not.
pub proof fn input_of_the_window_is_queued(
    before: XContext,
    event: XServerEvent,
    r: Result<(), XError>,
    after: XContext,
    input: XInputEvent,
    pushed: XEventQueue,
)
    requires
        before.can_process(event),
        exists|this: &mut XContext| #[trigger]
            call_ensures(XContext::process_event, (this, &event), r) && *this == before
                && *final(this) == after,
        before.event_queue.model().can_take(input.data),
        exists|this: &mut XEventQueue, r: ()| #[trigger]
            call_ensures(XEventQueue::push_x_event, (this, &input), r) && *this
                == before.event_queue && *final(this) == pushed,
        match event {
            XServerEvent::KeyPress(e) | XServerEvent::KeyRelease(e) => {
                &&& input.data is Key
                &&& input.data->Key_pressed == (event is KeyPress)
                &&& input.data->keycode == e.detail - before.info.setup.min_keycode
            },
            XServerEvent::ButtonPress(e) | XServerEvent::ButtonRelease(e) => {
                &&& input.data is Button
                &&& input.data->Button_pressed == (event is ButtonPress)
                &&& input.data->button == e.detail
            },
            XServerEvent::MotionNotify(e) => {
                &&& input.data is Mouse
                &&& input.data->x == e.event_x
                &&& input.data->y == e.event_y
            },
            _ => false,
        },
    ensures
        r is Ok,
        same_but_queue_and_tasks(before, after),
        after.tasks@ == before.tasks@,
        event is MotionNotify && before.state.grabbed ==> same_queue(
            before.event_queue,
            after.event_queue,
        ),
        !(event is MotionNotify && before.state.grabbed) ==> same_queue(
            pushed,
            after.event_queue,
        ),
{
    reveal_with_fuel(QueueModel::after_all, 2);
    assert(before.tasks@ + Seq::<XTask>::empty() =~= before.tasks@);
    let inputs = before.inputs_of(event);
    if inputs.len() == 1 {
        assert(inputs.drop_last() =~= Seq::<XInputEvent>::empty());
        assert(before.event_queue.model().after_all(inputs) == before.event_queue.model().after(
            inputs.last().data,
        ));
    }
}

/// A device that is not known cannot move, and the motion of one that is leaves no
/// task.
pub proof fn unknown_devices_do_not_move(
    before: XContext,
    event: XServerEvent,
    r: Result<(), XError>,
    after: XContext,
)
    requires
        before.can_process(event),
        exists|this: &mut XContext| #[trigger]
            call_ensures(XContext::process_event, (this, &event), r) && *this == before
                && *final(this) == after,
        event is RawMotion,
    ensures
        event matches XServerEvent::RawMotion(e) ==> {
            &&& r is Ok <==> before.devices@.contains_key(e.deviceid)
            &&& r is Err ==> r == Err::<(), XError>(XError::UnknownDevice(e.deviceid))
                && same_queue(before.event_queue, after.event_queue)
            &&& r is Ok ==> after.event_queue.model() == before.event_queue.model().after_all(
                raw_motions(
                    before.valuators@,
                    e.time,
                    e.deviceid,
                    axes_of(e.valuator_mask@),
                    e.axisvalues_raw@,
                ),
            )
        },
        same_but_queue_and_tasks(before, after),
        after.tasks@ == before.tasks@,
{
    reveal_with_fuel(QueueModel::after_all, 2);
    assert(before.tasks@ + Seq::<XTask>::empty() =~= before.tasks@);
}

/// The raw value of a relative axis is a motion along the axis that its number
/// stands for, by as many quarters as the value has, rounded towards zero; a wheel
/// turns by them as whole units. An axis that is unknown or absolute gives none, and
/// the others of an event are not touched by it.
pub proof fn raw_values_are_quarters(
    valuators: Map<u32, Valuator>,
    time: u32,
    deviceid: u16,
    axes: Seq<usize>,
    axis: usize,
    raw: Seq<Fp3232>,
)
    requires
        axis <= u16::MAX,
        raw.len() > axes.len(),
    ensures
        ({
            let fewer = raw_motions(valuators, time, deviceid, axes, raw);
            let all = raw_motions(valuators, time, deviceid, axes.push(axis), raw);
            let key = (deviceid * 0x1_0000 + axis) as u32;
            let moves = valuators.contains_key(key) && valuators[key].mode is Relative && axis <= 3;
            let value = raw[axes.len() as int];
            let units = value.integral * 0x1_0000_0000 + value.frac;
            let quarters = if units < 0 {
                -((-units) / 0x4000_0000)
            } else {
                units / 0x4000_0000
            };
            &&& !moves ==> all == fewer
            &&& moves ==> {
                &&& all.len() == fewer.len() + 1
                &&& all.drop_last() == fewer
                &&& all.last().time == time
                &&& all.last().data is MouseRelative
                &&& all.last().data->axis == if axis == 0 {
                    0u16
                } else if axis == 1 {
                    1u16
                } else if axis == 2 {
                    8u16
                } else {
                    6u16
                }
                &&& i32::MIN <= quarters <= i32::MAX ==> {
                    let own = all.last().data->value;
                    own.integral * 0x1_0000_0000 + own.frac == if axis < 2 {
                        quarters
                    } else {
                        quarters * 0x1_0000_0000
                    }
                }
            }
        }),
{
    assert(axes.push(axis).drop_last() =~= axes);
    let fewer = raw_motions(valuators, time, deviceid, axes, raw);
    let all = raw_motions(valuators, time, deviceid, axes.push(axis), raw);
    if all.len() > fewer.len() {
        assert(all.drop_last() =~= fewer);
    }
}

/// A request adds what it asks for behind what is still to be done. Quitting ends
/// the session and asks the server for nothing; a grab takes the keyboard and the
/// pointer where it is one of these, then its devices, and motion where asked for;
/// the end of a grab gives up all three; the keys of the host can only be let go of
/// by the test extension.
pub proof fn requests_are_taken_up(before: XContext, request: XRequest, after: XContext)
    requires
        exists|this: &mut XContext, r: ()| #[trigger]
            call_ensures(XContext::process_request, (this, request), r) && *this == before
                && *final(this) == after,
    ensures
        request is Quit ==> after.tasks@ == before.tasks@,
        after.state.running <==> before.state.running && !(request is Quit),
        after.state.grabbed == before.state.grabbed,
        request is UnstickHost ==> after.tasks@ == before.tasks@ + match before.info.extensions.test {
            Some(test_opcode) => seq![XTask::QueryKeymap { test_opcode }],
            None => seq![],
        },
        request is Ungrab ==> after.tasks@ == before.tasks@ + seq![
            XTask::UngrabKeyboard,
            XTask::UngrabPointer,
            XTask::UpdateGrab { grab: false },
        ],
        request matches XRequest::Grab { xcore, confine, motion, devices } ==> {
            &&& after.tasks@ == before.tasks@ + if xcore && motion {
                seq![
                    XTask::GrabKeyboard,
                    XTask::GrabPointer { confine },
                    XTask::SelectDevices,
                    XTask::UpdateGrab { grab: true },
                ]
            } else if xcore {
                seq![XTask::GrabKeyboard, XTask::GrabPointer { confine }, XTask::SelectDevices]
            } else if motion {
                seq![XTask::SelectDevices, XTask::UpdateGrab { grab: true }]
            } else {
                seq![XTask::SelectDevices]
            }
            &&& devices@.len() > 0 ==> after.requested_devices@ == devices@
            &&& devices@.len() == 0 ==> {
                &&& after.requested_devices@.len() == 1
                &&& after.requested_devices@[0].id is None
                &&& after.requested_devices@[0].kind is None
                &&& after.requested_devices@[0].name@.len() == 0
                &&& !after.requested_devices@[0].master
            }
        },
        !(request is Grab) ==> after.requested_devices == before.requested_devices,
        after.grab_devices == before.grab_devices && after.devices == before.devices
            && after.valuators == before.valuators,
        after.event_queue == before.event_queue && after.info == before.info && after.waiting
            == before.waiting && after.keys == before.keys && after.mods == before.mods,
{
    assert(before.tasks@ + Seq::<XTask>::empty() =~= before.tasks@);
    if let XRequest::Grab { xcore, confine, motion, devices } = request {
        assert(request_tasks(request, before.info.extensions) =~= if xcore && motion {
            seq![
                XTask::GrabKeyboard,
                XTask::GrabPointer { confine },
                XTask::SelectDevices,
                XTask::UpdateGrab { grab: true },
            ]
        } else if xcore {
            seq![XTask::GrabKeyboard, XTask::GrabPointer { confine }, XTask::SelectDevices]
        } else if motion {
            seq![XTask::SelectDevices, XTask::UpdateGrab { grab: true }]
        } else {
            seq![XTask::SelectDevices]
        });
    }
}

/// What is to be done is done in order, the first thing first, each by the request
/// to the server that it stands for; with nothing to do, nothing is asked for.
pub proof fn tasks_are_sent_in_order(before: XContext, action: XAction, after: XContext)
    requires
        before.info.wf(),
        exists|this: &mut XContext| #[trigger]
            call_ensures(XContext::next, (this,), action) && *this == before && *final(this)
                == after,
        before.tasks@.len() > 0,
    ensures
        ({
            let task = before.tasks@[0];
            let rest = before.tasks@.drop_first();
            let window = before.info.window;
            let input = before.info.extensions.input;
            &&& !(task is QueryDevices) ==> after.tasks@ == rest
            &&& task is GrabKeyboard ==> action == XAction::Send(
                XCommand::GrabKeyboard { owner_events: false, grab_window: window, time: 0 },
            ) && after.waiting is Grab
            &&& task matches XTask::GrabPointer { confine } ==> action == XAction::Send(
                XCommand::GrabPointer {
                    owner_events: false,
                    grab_window: window,
                    event_mask: 0x204c,
                    confine_to: if confine {
                        window
                    } else {
                        0
                    },
                    cursor: 0,
                    time: 0,
                },
            ) && after.waiting is Grab
            &&& task is UngrabKeyboard ==> action == XAction::Send(
                XCommand::UngrabKeyboard { time: 0 },
            )
            &&& task is UngrabPointer ==> action == XAction::Send(
                XCommand::UngrabPointer { time: 0 },
            )
            &&& task is MapWindow ==> action == XAction::Send(XCommand::MapWindow { window })
            &&& task is QueryKeymap ==> action == XAction::Send(XCommand::QueryKeymap)
            &&& task matches XTask::FakeRelease { test_opcode, keycode } ==> action == XAction::Send(
                XCommand::FakeInput {
                    major_opcode: test_opcode,
                    type_: 3,
                    detail: keycode,
                    time: 0,
                    root: 0,
                    deviceid: 0,
                },
            )
            &&& task is KeyboardMapping ==> action == XAction::Send(
                XCommand::GetKeyboardMapping {
                    first_keycode: before.info.setup.min_keycode,
                    count: (before.info.setup.max_keycode - before.info.setup.min_keycode) as u8,
                },
            ) && after.waiting is KeyboardMapping
            &&& task is ModifierMapping ==> action == XAction::Send(XCommand::GetModifierMapping)
                && after.waiting is ModifierMapping
            &&& task matches XTask::Visibility { dpms_opcode, state } ==> action == XAction::Send(
                XCommand::DpmsInfo { major_opcode: dpms_opcode },
            ) && after.waiting == XWait::Visibility(state)
            &&& task matches XTask::WmState { window: other } ==> action == XAction::Send(
                XCommand::GetProperty {
                    delete: false,
                    window: other,
                    property: before.info.atoms.wm_state,
                    type_: 0,
                    long_offset: 0,
                    long_length: 1,
                },
            ) && after.waiting is WmState
            &&& task matches XTask::AtomName { atom } ==> action == XAction::Send(
                XCommand::GetAtomName { atom },
            )
            &&& task is SelectDevices ==> action is Continue && after.grab_devices
                == before.requested_devices
            &&& !(task is SelectDevices) ==> after.grab_devices == before.grab_devices
            &&& task is QueryDevices && input is Some ==> action == XAction::Send(
                XCommand::XIQueryDevice { major_opcode: input->0, deviceid: 0 },
            ) && after.waiting is Devices && after.tasks@ == rest
            &&& task matches XTask::UpdateGrab { grab } ==> {
                &&& input is None ==> action is Continue && after.state.grabbed == grab
                &&& input is Some ==> after.waiting == XWait::Grabbed(grab) && after.state.grabbed
                    == before.state.grabbed
            }
            &&& !(task is UpdateGrab) ==> after.state.grabbed == before.state.grabbed
        }),
        after.state.running == before.state.running,
        after.event_queue == before.event_queue,
        after.info == before.info && after.keys == before.keys && after.mods == before.mods,
{
    let task = before.tasks@[0];
    assert(Seq::<XTask>::empty() + before.tasks@.drop_first() =~= before.tasks@.drop_first());
}

/// Grabbing motion asks each device that is to be grabbed for its raw motion, and
/// the end of the grab asks the same devices for nothing, on the root of the screen.
pub proof fn motion_is_asked_of_the_devices(before: XContext, action: XAction, after: XContext)
    requires
        before.info.wf(),
        exists|this: &mut XContext| #[trigger]
            call_ensures(XContext::next, (this,), action) && *this == before && *final(this)
                == after,
        before.tasks@.len() > 0,
        before.tasks@[0] is UpdateGrab,
        before.info.extensions.input is Some,
    ensures
        action matches XAction::Send(XCommand::XISelectEvents { major_opcode, window, masks })
            && major_opcode == before.info.extensions.input->0 && window
            == before.info.setup.roots@[before.info.screen as int].root && masks@.map_values(
            |m: DeviceMask| m.deviceid,
        ) == targets_of(before.grab_devices@, before.devices@) && forall|i: int|
            0 <= i < masks@.len() ==> (#[trigger] masks@[i]).mask == if before.tasks@[0]->UpdateGrab_grab {
                XIEventMask::RawMotion
            } else {
                XIEventMask::Nothing
            },
{
    if let XAction::Send(XCommand::XISelectEvents { major_opcode, window, masks }) = action {
        lemma_masks(before.grab_devices@, before.devices@, before.tasks@[0]->UpdateGrab_grab);
    }
}

/// A grab that the server grants goes on, and one that it refuses is an error that
/// tells why; nothing else is one. What the server says of its keys and of its
/// modifiers is taken note of, and motion is grabbed or not once the server has
/// taken note of that.
pub proof fn replies_are_taken_note_of(
    before: XContext,
    reply: XReply,
    r: Result<(), XError>,
    after: XContext,
)
    requires
        answers(reply, before.waiting),
        exists|this: &mut XContext| #[trigger]
            call_ensures(XContext::reply, (this, reply), r) && *this == before && *final(this)
                == after,
    ensures
        r is Err <==> reply is Grab && reply != XReply::Grab(GrabStatus::Success),
        reply matches XReply::Grab(status) ==> (r is Err ==> r == Err::<(), XError>(
            XError::GrabFailed(status),
        )),
        after.waiting is Nothing,
        after.state.running == before.state.running,
        after.state.grabbed == if before.waiting is Grabbed {
            before.waiting->Grabbed_0
        } else {
            before.state.grabbed
        },
        reply matches XReply::KeyboardMapping(keys) ==> after.keys == keys,
        !(reply is KeyboardMapping) ==> after.keys == before.keys,
        reply matches XReply::ModifierMapping(mods) ==> after.mods == mods,
        !(reply is ModifierMapping) ==> after.mods == before.mods,
        !(reply is Devices) ==> after.devices == before.devices && after.valuators
            == before.valuators,
        after.grab_devices == before.grab_devices && after.requested_devices
            == before.requested_devices && after.info == before.info,
        !(reply is Keymap) && !(reply is Devices && before.state.grabbed) ==> after.tasks@
            == before.tasks@,
        reply is Devices && before.state.grabbed ==> after.tasks@ == seq![
            XTask::UpdateGrab { grab: true },
        ] + before.tasks@,
{
    assert(Seq::<XTask>::empty() + before.tasks@ =~= before.tasks@);
}

/// The window is told to be visible where its screen is on and not all of it is
/// obscured, and to be hidden otherwise; one that the window manager has withdrawn
/// or iconified is told to be hidden. No other reply is told of.
pub proof fn hidden_windows_are_told(
    before: XContext,
    reply: XReply,
    r: Result<(), XError>,
    after: XContext,
)
    requires
        answers(reply, before.waiting),
        exists|this: &mut XContext| #[trigger]
            call_ensures(XContext::reply, (this, reply), r) && *this == before && *final(this)
                == after,
    ensures
        reply matches XReply::PowerOn(on) ==> has_queued(
            before.event_queue,
            XEvent::Visible(
                on && (before.waiting == XWait::Visibility(Visibility::Unobscured) || before.waiting
                    == XWait::Visibility(Visibility::PartiallyObscured)),
            ),
            after.event_queue,
        ),
        reply == XReply::Property(Some(0u32)) || reply == XReply::Property(Some(3u32))
            ==> has_queued(before.event_queue, XEvent::Visible(false), after.event_queue),
        !(reply is PowerOn) && reply != XReply::Property(Some(0u32)) && reply != XReply::Property(
            Some(3u32),
        ) ==> same_queue(before.event_queue, after.event_queue),
{
}

/// Letting go of the host's keys releases each key that the server says is down,
/// before anything else is done, and no other one.
pub proof fn host_keys_are_let_go_of(
    before: XContext,
    keys: [u8; 32],
    r: Result<(), XError>,
    after: XContext,
    keycode: u8,
)
    requires
        before.waiting is Keymap,
        exists|this: &mut XContext| #[trigger]
            call_ensures(XContext::reply, (this, XReply::Keymap(keys)), r) && *this == before
                && *final(this) == after,
    ensures
        ({
            let count = after.tasks@.len() - before.tasks@.len();
            let released = after.tasks@.take(count);
            &&& count >= 0
            &&& after.tasks@.skip(count) == before.tasks@
            &&& released.contains(
                XTask::FakeRelease { test_opcode: before.waiting->Keymap_test_opcode, keycode },
            ) <==> (keys@[keycode as int / 8] >> (keycode % 8)) & 1 == 1
            &&& forall|i: int| 0 <= i < released.len() ==> #[trigger] released[i] is FakeRelease
        }),
{
    let opcode = before.waiting->Keymap_test_opcode;
    let releases = releases_below(keys@, opcode, 256);
    assert(answers(XReply::Keymap(keys), before.waiting));
    assert(after.tasks@ == releases + before.tasks@);
    let count = after.tasks@.len() - before.tasks@.len();
    assert(after.tasks@.take(count) =~= releases);
    assert(after.tasks@.skip(count) =~= before.tasks@);
    releases_are_the_keys_down(keys@, opcode, keycode);
    lemma_all_released(keys@, opcode, 256);
}

proof fn lemma_all_released(keys: Seq<u8>, test_opcode: u8, bound: nat)
    ensures
        forall|i: int|
            0 <= i < releases_below(keys, test_opcode, bound).len() ==> #[trigger] releases_below(
                keys,
                test_opcode,
                bound,
            )[i] is FakeRelease,
    decreases bound,
{
    if bound > 0 {
        lemma_all_released(keys, test_opcode, (bound - 1) as nat);
    }
}

/// The devices that the server lists are known by their ids from then on, the last
/// one of those with one id, and their axes by the devices and the numbers; of a
/// device that is not listed nothing is known any more.
pub proof fn listed_devices_are_known(
    before: XContext,
    infos: Vec<XIDeviceInfo>,
    r: Result<(), XError>,
    after: XContext,
    id: u16,
)
    requires
        before.waiting is Devices,
        exists|this: &mut XContext| #[trigger]
            call_ensures(XContext::reply, (this, XReply::Devices(infos)), r) && *this == before
                && *final(this) == after,
    ensures
        after.devices@.contains_key(id) <==> exists|i: int|
            0 <= i < infos@.len() && (#[trigger] infos@[i]).deviceid == id,
        after.devices@.contains_key(id) ==> exists|i: int|
            {
                &&& 0 <= i < infos@.len()
                &&& #[trigger] infos@[i] == after.devices@[id]
                &&& infos@[i].deviceid == id
                &&& forall|j: int| i < j < infos@.len() ==> (#[trigger] infos@[j]).deviceid != id
            },
        after.valuators@ == valuators_of(after.devices@),
{
    assert(answers(XReply::Devices(infos), before.waiting));
    lemma_devices_by_id(infos@, id);
}

/// The window is named, and given its instance and its class, by texts; it is shown
/// once it can be closed, covers the screen and the devices are known.
pub proof fn windows_are_named_and_shown(
    context: XContext,
    name: &str,
    named: XCommand,
    instance: &str,
    class: &str,
    classed: XCommand,
    shown: XContext,
)
    requires
        call_ensures(XContext::set_wm_name, (&context, name), named),
        call_ensures(XContext::set_wm_class, (&context, instance, class), classed),
        exists|this: &mut XContext, r: ()| #[trigger]
            call_ensures(XContext::map_window, (this,), r) && *this == context && *final(this)
                == shown,
    ensures
        named matches XCommand::ChangeProperty {
            mode: PropMode::Replace,
            window,
            property,
            type_,
            data: PropertyData::Data8(text),
        } && window == context.info.window && property == 39 && type_ == 31 && text@ == encode_utf8(
            name@,
        ),
        classed matches XCommand::ChangeProperty {
            mode: PropMode::Replace,
            window,
            property,
            type_,
            data: PropertyData::Data8(text),
        } && window == context.info.window && property == 67 && type_ == 31 && text@ == encode_utf8(
            instance@,
        ) + seq![0u8] + encode_utf8(class@),
        shown.tasks@ == context.tasks@ + seq![
            XTask::SetProtocols,
            XTask::SetFullscreen,
            XTask::QueryDevices,
            XTask::MapWindow,
        ],
        same_but_queue_and_tasks(context, shown) && shown.event_queue == context.event_queue,
{
    assert(encode_utf8(instance@).push(0u8) + encode_utf8(class@) =~= encode_utf8(instance@) + seq![
        0u8,
    ] + encode_utf8(class@));
}

/// The window asks to be closed by a message and to cover the screen, by the atoms
/// that stand for that.
pub proof fn windows_can_be_closed_and_cover_the_screen(
    before: XContext,
    action: XAction,
    after: XContext,
)
    requires
        before.info.wf(),
        exists|this: &mut XContext| #[trigger]
            call_ensures(XContext::next, (this,), action) && *this == before && *final(this)
                == after,
        before.tasks@.len() > 0,
    ensures
        before.tasks@[0] is SetProtocols ==> {
            &&& action matches XAction::Send(
                XCommand::ChangeProperty {
                    mode: PropMode::Replace,
                    window,
                    property,
                    type_,
                    data: PropertyData::Data32(atoms),
                },
            )
            &&& window == before.info.window && property == before.info.atoms.wm_protocols && type_
                == 4
            &&& atoms@ == seq![before.info.atoms.wm_delete_window]
        },
        before.tasks@[0] is SetFullscreen ==> {
            &&& action matches XAction::Send(
                XCommand::ChangeProperty {
                    mode: PropMode::Append,
                    window,
                    property,
                    type_,
                    data: PropertyData::Data32(atoms),
                },
            )
            &&& window == before.info.window && property == before.info.atoms.net_wm_state && type_
                == 4
            &&& atoms@ == seq![before.info.atoms.net_wm_state_fullscreen]
        },
{
}

/// Without the input extension there are no devices and no axes, and where motion
/// counts as grabbed it is grabbed anew; with nothing to do nothing is done.
pub proof fn sessions_go_on_without_devices(before: XContext, action: XAction, after: XContext)
    requires
        before.info.wf(),
        exists|this: &mut XContext| #[trigger]
            call_ensures(XContext::next, (this,), action) && *this == before && *final(this)
                == after,
    ensures
        before.tasks@.len() == 0 <==> action is Idle,
        action is Idle ==> after == before,
        before.tasks@.len() > 0 && before.tasks@[0] is QueryDevices
            && before.info.extensions.input is None ==> {
            &&& action is Continue
            &&& after.devices@ == Map::<u16, XIDeviceInfo>::empty()
            &&& after.valuators@ == Map::<u32, Valuator>::empty()
            &&& after.tasks@ == if before.state.grabbed {
                seq![XTask::UpdateGrab { grab: true }] + before.tasks@.drop_first()
            } else {
                before.tasks@.drop_first()
            }
        },
        before.tasks@.len() > 0 && !(before.tasks@[0] is QueryDevices) ==> after.devices
            == before.devices && after.valuators == before.valuators,
{
    if before.tasks@.len() > 0 {
        assert(Seq::<XTask>::empty() + before.tasks@.drop_first() =~= before.tasks@.drop_first());
    }
}

/// A key counts from the lowest keycode, and its symbol is the first one that it has,
/// where that is one.
pub proof fn keys_have_their_first_symbol(
    context: XContext,
    code: u8,
    keycode: u8,
    keysym: Option<u32>,
)
    requires
        code >= context.info.setup.min_keycode,
        call_ensures(XContext::keycode, (&context, code), keycode),
        call_ensures(XContext::keysym, (&context, keycode), keysym),
    ensures
        keycode + context.info.setup.min_keycode == code,
        ({
            let at = keycode * context.keys.keysyms_per_keycode;
            &&& keysym is Some <==> at < context.keys.keysyms@.len() && context.keys.keysyms@[at]
                != 0
            &&& keysym matches Some(symbol) ==> symbol == context.keys.keysyms@[at]
        }),
{
}

/// The session tells why it cannot go on: why a grab was refused, or which device is
/// not known.
pub proof fn errors_tell_why(error: XError, message: String)
    requires
        call_ensures(XError::message, (&error,), message),
    ensures
        error matches XError::GrabFailed(status) ==> forall|name: &'static str|
            call_ensures(GrabStatus::name, (&status,), name) ==> message@
                == "X failed to grab with status "@ + name@,
        error matches XError::UnknownDevice(id) ==> message@ == "XInput device unknown for event: "@
            + decimal(id as nat),
{
}

/// A session starts with nothing to do, nothing queued and nothing grabbed, on what the
/// server has said of itself.
pub proof fn sessions_start_with_nothing_to_do(
    info: XInfo,
    keys: KeyboardMapping,
    mods: ModifierMapping,
    context: XContext,
    stopped: XContext,
)
    requires
        call_ensures(XContext::new, (info, keys, mods), context),
        exists|this: &mut XContext, r: ()| #[trigger]
            call_ensures(XContext::stop, (this,), r) && *this == context && *final(this)
                == stopped,
    ensures
        context.info == info && context.keys == keys && context.mods == mods,
        context.tasks@.len() == 0 && context.waiting is Nothing,
        context.event_queue.event_queue@.len() == 0,
        context.event_queue.motion.x@ == 0 && context.event_queue.motion.y@ == 0,
        context.event_queue.position.width == 0 && context.event_queue.position.height == 0,
        !context.state.running && !context.state.grabbed,
        !stopped.state.running && stopped.state.grabbed == context.state.grabbed,
        stopped.tasks == context.tasks && stopped.event_queue == context.event_queue,
{
}

proof fn lemma_motions_fit(
    queue: QueueModel,
    valuators: Map<u32, Valuator>,
    time: u32,
    deviceid: u16,
    axes: Seq<usize>,
    raw: Seq<Fp3232>,
)
    requires
        -0x2000_0000_0000_0000 <= queue.x <= 0x2000_0000_0000_0000,
        -0x2000_0000_0000_0000 <= queue.y <= 0x2000_0000_0000_0000,
        axes.len() <= 0x1000_0000,
    ensures
        ({
            let events = raw_motions(valuators, time, deviceid, axes, raw);
            let after = queue.after_all(events);
            let room = 0x2000_0000_0000_0000 + 0x8000_0000 * axes.len();
            &&& queue.can_take_all(events)
            &&& -room <= after.x <= room
            &&& -room <= after.y <= room
        }),
    decreases axes.len(),
{
    let events = raw_motions(valuators, time, deviceid, axes, raw);
    if axes.len() > 0 {
        let fewer = axes.drop_last();
        lemma_motions_fit(queue, valuators, time, deviceid, fewer, raw);
        let before = raw_motions(valuators, time, deviceid, fewer, raw);
        if events.len() > before.len() {
            assert(events.drop_last() =~= before);
            let data = events.last().data;
            let now = queue.after_all(before);
            if data->axis == REL_X || data->axis == REL_Y {
                pointer_moves_by_quarters(
                    data->axis,
                    quarters(raw[axes.len() - 1]),
                );
                assert(-0x8000_0000 <= data->value.units() <= 0x8000_0000);
            }
            crate::x::motion::unit_resolution_leaves_nothing(now.x);
            crate::x::motion::unit_resolution_leaves_nothing(now.y);
        }
    }
}

/// Ordinary events of the server are accepted: keys from the lowest keycode on,
/// buttons, the pointer, and all that the window tells of itself; and raw motion that
/// has a value for each of its axes, as long as the motion that is pending is no more
/// than a quarter of what the machine's numbers hold.
pub proof fn ordinary_server_events_are_accepted(
    context: XContext,
    event: XServerEvent,
    accepts: bool,
)
    requires
        call_ensures(XContext::accepts_event, (&context, &event), accepts),
        -0x2000_0000_0000_0000 <= context.event_queue.motion.x@ <= 0x2000_0000_0000_0000,
        -0x2000_0000_0000_0000 <= context.event_queue.motion.y@ <= 0x2000_0000_0000_0000,
        context.event_queue.position.bounds.x.is_consistent(),
        context.event_queue.position.bounds.y.is_consistent(),
        event matches XServerEvent::KeyPress(e) ==> e.detail >= context.info.setup.min_keycode,
        event matches XServerEvent::KeyRelease(e) ==> e.detail >= context.info.setup.min_keycode,
        event matches XServerEvent::ClientMessage { data } ==> data is Data32,
        event matches XServerEvent::RawMotion(e) ==> {
            &&& forall|i: int|
                0 <= i < e.valuator_mask@.len() ==> #[trigger] e.valuator_mask@[i] != 0x8000_0000
            &&& axes_of(e.valuator_mask@).len() <= 0x1000_0000
            &&& axes_of(e.valuator_mask@).len() <= e.axisvalues@.len()
            &&& axes_of(e.valuator_mask@).len() <= e.axisvalues_raw@.len()
        },
    ensures
        accepts,
{
    reveal_with_fuel(QueueModel::can_take_all, 2);
    reveal_with_fuel(QueueModel::after_all, 2);
    let queue = context.event_queue.model();
    crate::x::motion::unit_resolution_leaves_nothing(queue.x);
    crate::x::motion::unit_resolution_leaves_nothing(queue.y);
    let inputs = context.inputs_of(event);
    if let XServerEvent::RawMotion(e) = event {
        lemma_motions_fit(
            queue,
            context.valuators@,
            e.time,
            e.deviceid,
            axes_of(e.valuator_mask@),
            e.axisvalues_raw@,
        );
    } else if inputs.len() == 1 {
        assert(inputs.drop_last() =~= Seq::<XInputEvent>::empty());
    }
}

} // verus!
