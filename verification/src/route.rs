//! The ways on which events reach the guest.

use crate::config::ConfigQemuRouting;
use crate::input::{
    is_button_code, EventKind, EventRef, InputEvent, ABS_X, ABS_Y, BUTTON_EXTRA, BUTTON_GEAR_UP,
    BUTTON_LEFT, BUTTON_MIDDLE, BUTTON_RIGHT, BUTTON_SIDE, BUTTON_WHEEL, KEY_RESERVED, PRESSED,
    REL_X, REL_Y,
};
use crate::keymap::{are_rows, csv_rows, is_table, qnums, BadTable, Keymap, Keymaps};
use crate::qemu::{Argument, DeviceAdd};
use crate::uinput::{Builder, BuilderModel};
use vstd::prelude::*;

verus! {

/// A button, by the name that the machine control protocol has for it.
#[derive(Debug, Clone, Copy, PartialEq, Eq, Structural)]
pub enum InputButton {
    Left,
    Middle,
    Right,
    WheelUp,
    WheelDown,
    Side,
    Extra,
}

#[derive(Debug, Clone, Copy, PartialEq, Eq, Structural)]
pub enum InputAxis {
    X,
    Y,
}

/// An event as the machine control protocol has it.
#[derive(Debug, Clone, Copy, PartialEq, Eq, Structural)]
pub enum QmpInputEvent {
    Btn { down: bool, button: InputButton },
    Key { down: bool, qnum: i64 },
    Rel { axis: InputAxis, value: i64 },
    Abs { axis: InputAxis, value: i64 },
}

/// The button with a code, where it has a name.
pub open spec fn named_button(code: u16) -> Option<InputButton> {
    if code == BUTTON_LEFT {
        Some(InputButton::Left)
    } else if code == BUTTON_MIDDLE {
        Some(InputButton::Middle)
    } else if code == BUTTON_RIGHT {
        Some(InputButton::Right)
    } else if code == BUTTON_WHEEL {
        Some(InputButton::WheelDown)
    } else if code == BUTTON_GEAR_UP {
        Some(InputButton::WheelUp)
    } else if code == BUTTON_SIDE {
        Some(InputButton::Side)
    } else if code == BUTTON_EXTRA {
        Some(InputButton::Extra)
    } else {
        None
    }
}

/// The axis with a code, where it is one of the two that there are.
pub open spec fn named_axis(code: u16, x: u16, y: u16) -> Option<InputAxis> {
    if code == x {
        Some(InputAxis::X)
    } else if code == y {
        Some(InputAxis::Y)
    } else {
        None
    }
}

/// The event as the machine control protocol has it, where it has it. The
/// numbers of the keys are looked up by their codes; the key without a name is
/// left out.
pub open spec fn converted(e: InputEvent, qkeycodes: Seq<u8>) -> Option<QmpInputEvent> {
    if !e.in_range() {
        None
    } else {
        match e.kind {
            EventKind::Key => if is_button_code(e.code) {
                match named_button(e.code) {
                    Some(button) => Some(
                        QmpInputEvent::Btn { down: e.value == PRESSED, button },
                    ),
                    None => None,
                }
            } else if e.code != KEY_RESERVED && e.code < qkeycodes.len() {
                Some(
                    QmpInputEvent::Key {
                        down: e.value == PRESSED,
                        qnum: qkeycodes[e.code as int] as i64,
                    },
                )
            } else {
                None
            },
            EventKind::Relative => match named_axis(e.code, REL_X, REL_Y) {
                Some(axis) => Some(QmpInputEvent::Rel { axis, value: e.value as i64 }),
                None => None,
            },
            EventKind::Absolute => match named_axis(e.code, ABS_X, ABS_Y) {
                Some(axis) => Some(QmpInputEvent::Abs { axis, value: e.value as i64 }),
                None => None,
            },
            _ => None,
        }
    }
}

/// Some events as the machine control protocol has them, in order.
pub open spec fn all_converted(events: Seq<InputEvent>, qkeycodes: Seq<u8>) -> Seq<QmpInputEvent>
    decreases events.len(),
{
    if events.len() == 0 {
        Seq::empty()
    } else {
        let before = all_converted(events.drop_last(), qkeycodes);
        match converted(events.last(), qkeycodes) {
            Some(e) => before.push(e),
            None => before,
        }
    }
}

/// More events than this are not collected before they are sent.
pub const THRESHOLD: usize = 0x20;

/// What to do once an event has been collected.
#[derive(Debug, Clone, Copy, PartialEq, Eq, Structural)]
pub enum BatchStep {
    /// Collect another event, where there is one already.
    More,
    /// Send what has been collected.
    Send,
    /// There will be no more events; what has been collected is dropped.
    End,
}

/// How sending events turned out.
#[derive(Debug, Clone, Copy, PartialEq, Eq, Structural)]
pub enum SendOutcome {
    Sent,
    /// The machine rejected the events.
    GenericError,
    /// The connection failed, or the machine gave another error.
    Failed,
}

/// Events are sent over the machine control protocol.
#[derive(Debug)]
pub struct RouteQmp {
    pub qkeycodes: Vec<u8>,
    /// The events that are collected.
    pub events: Vec<QmpInputEvent>,
}

impl RouteQmp {
    pub fn new(qkeycodes: Vec<u8>) -> (route: RouteQmp)
        ensures
            route.qkeycodes == qkeycodes,
            route.events@.len() == 0,
    {
        RouteQmp { qkeycodes, events: Vec::new() }
    }

    /// A route that has the numbers of keys from a table of comma-separated
    /// values.
    pub fn from_table(data: &[u8]) -> (route: Result<RouteQmp, BadTable>)
        ensures
            route is Ok <==> (csv_rows(data@) matches Some(rows) && is_table(rows)),
            route matches Ok(r) ==> r.events@.len() == 0 && exists|keymaps: Seq<Keymap>|
                are_rows(keymaps, csv_rows(data@)->0) && r.qkeycodes@ == #[trigger] qnums(keymaps),
    {
        match Keymaps::from_csv(data) {
            Ok(keymaps) => Ok(RouteQmp::new(keymaps.qnum_keycodes())),
            Err(error) => Err(error),
        }
    }

    pub fn convert_event(e: &InputEvent, qkeycodes: &[u8]) -> (event: Option<QmpInputEvent>)
        ensures
            event == converted(*e, qkeycodes@),
    {
        match EventRef::new(e) {
            Ok(EventRef::Key { key, value }) => {
                let down = value == PRESSED;
                let code = key.code();
                if key.is_button() {
                    let button = if code == BUTTON_LEFT {
                        InputButton::Left
                    } else if code == BUTTON_MIDDLE {
                        InputButton::Middle
                    } else if code == BUTTON_RIGHT {
                        InputButton::Right
                    } else if code == BUTTON_WHEEL {
                        InputButton::WheelDown
                    } else if code == BUTTON_GEAR_UP {
                        InputButton::WheelUp
                    } else if code == BUTTON_SIDE {
                        InputButton::Side
                    } else if code == BUTTON_EXTRA {
                        InputButton::Extra
                    } else {
                        return None;
                    };
                    Some(QmpInputEvent::Btn { down, button })
                } else if code == KEY_RESERVED {
                    None
                } else if (code as usize) < qkeycodes.len() {
                    Some(QmpInputEvent::Key { down, qnum: qkeycodes[code as usize] as i64 })
                } else {
                    None
                }
            },
            Ok(EventRef::Relative { axis, value }) => {
                let axis = if axis == REL_X {
                    InputAxis::X
                } else if axis == REL_Y {
                    InputAxis::Y
                } else {
                    return None;
                };
                Some(QmpInputEvent::Rel { axis, value: value as i64 })
            },
            Ok(EventRef::Absolute { axis, value }) => {
                let axis = if axis == ABS_X {
                    InputAxis::X
                } else if axis == ABS_Y {
                    InputAxis::Y
                } else {
                    return None;
                };
                Some(QmpInputEvent::Abs { axis, value: value as i64 })
            },
            _ => None,
        }
    }

    pub fn convert_events(e: &Vec<InputEvent>, qkeycodes: &[u8]) -> (events: Vec<QmpInputEvent>)
        ensures
            events@ == all_converted(e@, qkeycodes@),
    {
        let mut events: Vec<QmpInputEvent> = Vec::new();
        for i in 0..e.len()
            invariant
                events@ == all_converted(e@.take(i as int), qkeycodes@),
        {
            assert(e@.take(i + 1).drop_last() =~= e@.take(i as int));
            if let Some(event) = RouteQmp::convert_event(&e[i], qkeycodes) {
                events.push(event);
            }
        }
        assert(e@.take(e@.len() as int) =~= e@);
        events
    }

    /// Starts to collect events with a first one.
    pub fn start(&mut self, event: &InputEvent)
        ensures
            final(self).events@ == all_converted(seq![*event], old(self).qkeycodes@),
            final(self).qkeycodes == old(self).qkeycodes,
    {
        self.events.clear();
        self.collect(event);
        proof {
            reveal_with_fuel(all_converted, 2);
            assert(seq![*event].drop_last() =~= Seq::<InputEvent>::empty());
        }
    }

    fn collect(&mut self, event: &InputEvent)
        ensures
            final(self).events@ == match converted(*event, old(self).qkeycodes@) {
                Some(e) => old(self).events@.push(e),
                None => old(self).events@,
            },
            final(self).qkeycodes == old(self).qkeycodes,
    {
        if let Some(event) = RouteQmp::convert_event(event, self.qkeycodes.as_slice()) {
            self.events.push(event);
        }
    }

    /// Collects an event that was there already, or takes note that there will
    /// be no more.
    pub fn more(&mut self, event: Option<&InputEvent>) -> (step: BatchStep)
        ensures
            final(self).events@ == match event {
                Some(event) => match converted(*event, old(self).qkeycodes@) {
                    Some(e) => old(self).events@.push(e),
                    None => old(self).events@,
                },
                None => old(self).events@,
            },
            step == match event {
                Some(_) => if final(self).events@.len() > THRESHOLD {
                    BatchStep::Send
                } else {
                    BatchStep::More
                },
                None => BatchStep::End,
            },
            final(self).qkeycodes == old(self).qkeycodes,
    {
        match event {
            Some(event) => {
                self.collect(event);
                if self.events.len() > THRESHOLD {
                    BatchStep::Send
                } else {
                    BatchStep::More
                }
            },
            None => BatchStep::End,
        }
    }

    /// Whether there is anything to be sent.
    pub fn has_events(&self) -> (has: bool)
        ensures
            has == (self.events@.len() > 0),
    {
        self.events.len() > 0
    }

    /// Whether to go on after events were sent. That the machine rejects them
    /// does not matter.
    pub fn goes_on(outcome: SendOutcome) -> (go_on: bool)
        ensures
            go_on == !(outcome is Failed),
    {
        match outcome {
            SendOutcome::Sent => true,
            SendOutcome::GenericError => true,
            SendOutcome::Failed => false,
        }
    }
}

/// Never more than one event over the threshold is sent at once.
pub proof fn batches_are_bounded(before: Seq<QmpInputEvent>, event: InputEvent, qkeycodes: Seq<u8>)
    requires
        before.len() <= THRESHOLD,
    ensures
        (match converted(event, qkeycodes) {
            Some(e) => before.push(e),
            None => before,
        }).len() <= THRESHOLD + 1,
{
}

/// Collecting events one by one gives what converting them together gives.
pub proof fn collecting_is_converting(
    events: Seq<InputEvent>,
    event: InputEvent,
    qkeycodes: Seq<u8>,
)
    ensures
        all_converted(events.push(event), qkeycodes) == match converted(event, qkeycodes) {
            Some(e) => all_converted(events, qkeycodes).push(e),
            None => all_converted(events, qkeycodes),
        },
{
    assert(events.push(event).drop_last() =~= events);
}

/// A command to the machine.
#[derive(Debug, PartialEq, Eq)]
pub enum RouteCommand {
    /// Add a device, no sooner than after some milliseconds.
    DeviceAdd { command: DeviceAdd, delay: u64 },
    DeviceDel { id: String },
    /// Take input from a kernel device.
    ObjectAddInputLinux { id: String, evdev: String, repeat: bool },
    /// Delete an object.
    ObjectDel { id: String },
    /// Delete an object where it is there, and then wait some milliseconds.
    ObjectReplace { id: String, delay: u64 },
}

/// What to do once the machine has answered a command.
#[derive(Debug, Clone, Copy, PartialEq, Eq, Structural)]
pub enum CommandStep {
    Done,
    /// Wait some milliseconds.
    Wait { delay: u64 },
    /// The command has failed.
    Failed,
}

impl RouteCommand {
    /// What to do once the machine has carried out a command, or has not. An
    /// object that is replaced need not be there; where it was, it needs time
    /// to leave.
    pub fn answered(&self, ok: bool) -> (step: CommandStep)
        ensures
            step == match *self {
                RouteCommand::ObjectReplace { delay, .. } => if ok {
                    CommandStep::Wait { delay }
                } else {
                    CommandStep::Done
                },
                _ => if ok {
                    CommandStep::Done
                } else {
                    CommandStep::Failed
                },
            },
    {
        match self {
            RouteCommand::ObjectReplace { delay, .. } => {
                if ok {
                    CommandStep::Wait { delay: *delay }
                } else {
                    CommandStep::Done
                }
            },
            _ => {
                if ok {
                    CommandStep::Done
                } else {
                    CommandStep::Failed
                }
            },
        }
    }
}

/// How long it takes until a new device can be opened, in milliseconds.
pub const DEVICE_DELAY: u64 = 512;

/// How a virtual device is made known to the guest.
pub trait UInputCommands: Sized {
    /// Whether some commands make a device with a path known.
    spec fn creates(&self, commands: Seq<RouteCommand>, path: Seq<char>) -> bool;

    /// Whether a command undoes that.
    spec fn deletes(&self, command: RouteCommand) -> bool;

    /// The commands that make a device known, one after another.
    fn command_create(&self, path: &str) -> (commands: Vec<RouteCommand>)
        ensures
            self.creates(commands@, path@),
    ;

    fn command_delete(&self) -> (command: RouteCommand)
        ensures
            self.deletes(command),
    ;
}

/// The guest gets the device as a virtio device.
#[derive(Debug)]
pub struct RouteUInputVirtio {
    pub id: String,
    pub bus: Option<String>,
}

/// Whether a command adds the host's device with a path as a virtio device.
pub open spec fn adds_host_device(
    command: DeviceAdd,
    id: String,
    bus: Option<String>,
    path: Seq<char>,
) -> bool {
    &&& command.driver@ == "virtio-input-host-pci"@
    &&& command.id == Some(id)
    &&& command.bus == bus
    &&& command.arguments@.len() == 2
    &&& command.arguments@[0].0@ == "evdev"@
    &&& command.arguments@[0].1 matches Argument::Text(text) && text@ == path
    &&& command.arguments@[1].0@ == "multifunction"@
    &&& command.arguments@[1].1 == Argument::Flag(true)
}

impl UInputCommands for RouteUInputVirtio {
    open spec fn creates(&self, commands: Seq<RouteCommand>, path: Seq<char>) -> bool {
        &&& commands.len() == 1
        &&& commands[0] matches RouteCommand::DeviceAdd { command, delay } && delay == DEVICE_DELAY
            && adds_host_device(command, self.id, self.bus, path)
    }

    open spec fn deletes(&self, command: RouteCommand) -> bool {
        command == RouteCommand::DeviceDel { id: self.id }
    }

    fn command_create(&self, path: &str) -> (commands: Vec<RouteCommand>) {
        let mut arguments: Vec<(String, Argument)> = Vec::new();
        arguments.push((String::from_str("evdev"), Argument::Text(String::from_str(path))));
        arguments.push((String::from_str("multifunction"), Argument::Flag(true)));
        let command = DeviceAdd {
            driver: String::from_str("virtio-input-host-pci"),
            id: Some(self.id.clone()),
            bus: match &self.bus {
                Some(bus) => Some(bus.clone()),
                None => None,
            },
            arguments,
        };
        let mut commands: Vec<RouteCommand> = Vec::new();
        commands.push(RouteCommand::DeviceAdd { command, delay: DEVICE_DELAY });
        commands
    }

    fn command_delete(&self) -> (command: RouteCommand) {
        RouteCommand::DeviceDel { id: self.id.clone() }
    }
}

/// The machine reads the device itself.
#[derive(Debug)]
pub struct RouteUInputInputLinux {
    pub id: String,
    pub repeat: bool,
}

impl UInputCommands for RouteUInputInputLinux {
    open spec fn creates(&self, commands: Seq<RouteCommand>, path: Seq<char>) -> bool {
        &&& commands.len() == 2
        &&& commands[0] == RouteCommand::ObjectReplace { id: self.id, delay: DEVICE_DELAY }
        &&& commands[1] matches RouteCommand::ObjectAddInputLinux { id, evdev, repeat } && id
            == self.id && evdev@ == path && repeat == self.repeat
    }

    open spec fn deletes(&self, command: RouteCommand) -> bool {
        command == RouteCommand::ObjectDel { id: self.id }
    }

    fn command_create(&self, path: &str) -> (commands: Vec<RouteCommand>) {
        let mut commands: Vec<RouteCommand> = Vec::new();
        commands.push(RouteCommand::ObjectReplace { id: self.id.clone(), delay: DEVICE_DELAY });
        commands.push(
            RouteCommand::ObjectAddInputLinux {
                id: self.id.clone(),
                evdev: String::from_str(path),
                repeat: self.repeat,
            },
        );
        commands
    }

    fn command_delete(&self) -> (command: RouteCommand) {
        RouteCommand::ObjectDel { id: self.id.clone() }
    }
}

/// Events are sent to a virtual device.
pub struct RouteUInput<U> {
    pub builder: Builder,
    pub commands: U,
}

impl<U> RouteUInput<U> {
    pub fn builder(&mut self) -> (builder: &mut Builder)
        ensures
            *builder == old(self).builder,
            *final(self) == (RouteUInput { builder: *final(builder), ..*old(self) }),
    {
        &mut self.builder
    }

    fn new(commands: U) -> (route: RouteUInput<U>)
        ensures
            route.builder.model() == BuilderModel::nothing(),
            route.commands == commands,
    {
        RouteUInput { builder: Builder::new(), commands }
    }

    /// How forwarding events to a device turned out: where the events could be
    /// written, as giving up the device did.
    pub fn outcome<E>(written: Result<(), E>, deleted: Result<(), E>) -> (outcome: Result<(), E>)
        ensures
            outcome == match written {
                Ok(()) => deleted,
                Err(error) => Err(error),
            },
    {
        match written {
            Ok(()) => deleted,
            Err(error) => Err(error),
        }
    }
}

impl RouteUInput<RouteUInputInputLinux> {
    pub fn new_input_linux(id: String, repeat: bool) -> (route: Self)
        ensures
            route.builder.model() == BuilderModel::nothing(),
            route.commands == (RouteUInputInputLinux { id, repeat }),
    {
        RouteUInput::new(RouteUInputInputLinux { id, repeat })
    }
}

impl RouteUInput<RouteUInputVirtio> {
    pub fn new_virtio_host(id: String, bus: Option<String>) -> (route: Self)
        ensures
            route.builder.model() == BuilderModel::nothing(),
            route.commands == (RouteUInputVirtio { id, bus }),
    {
        RouteUInput::new(RouteUInputVirtio { id, bus })
    }
}

/// A way on which events reach the guest.
pub enum Route {
    InputLinux(RouteUInput<RouteUInputInputLinux>),
    VirtioHost(RouteUInput<RouteUInputVirtio>),
    Qmp(RouteQmp),
}

impl Route {
    /// The route that is configured. There is none by way of SPICE.
    pub fn new(
        routing: ConfigQemuRouting,
        qkeycodes: Vec<u8>,
        id: String,
        bus: Option<String>,
        repeat: bool,
    ) -> (route: Route)
        requires
            !(routing is Spice),
        ensures
            match routing {
                ConfigQemuRouting::InputLinux => {
                    &&& route matches Route::InputLinux(r)
                    &&& r.builder.model() == BuilderModel::nothing()
                    &&& r.commands == (RouteUInputInputLinux { id, repeat })
                },
                ConfigQemuRouting::VirtioHost => {
                    &&& route matches Route::VirtioHost(r)
                    &&& r.builder.model() == BuilderModel::nothing()
                    &&& r.commands == (RouteUInputVirtio { id, bus })
                },
                _ => {
                    &&& route matches Route::Qmp(r)
                    &&& r.qkeycodes == qkeycodes
                    &&& r.events@.len() == 0
                },
            },
    {
        match routing {
            ConfigQemuRouting::InputLinux => Route::InputLinux(
                RouteUInput::new_input_linux(id, repeat),
            ),
            ConfigQemuRouting::VirtioHost => Route::VirtioHost(
                RouteUInput::new_virtio_host(id, bus),
            ),
            _ => Route::Qmp(RouteQmp::new(qkeycodes)),
        }
    }

    /// The virtual device that is to be made, where there is one.
    pub fn builder(&mut self) -> (builder: Option<&mut Builder>)
        ensures
            builder is None <==> *old(self) is Qmp,
            match *old(self) {
                Route::InputLinux(r) => builder matches Some(b) && *b == r.builder && *final(self)
                    == Route::InputLinux(RouteUInput { builder: *final(b), ..r }),
                Route::VirtioHost(r) => builder matches Some(b) && *b == r.builder && *final(self)
                    == Route::VirtioHost(RouteUInput { builder: *final(b), ..r }),
                Route::Qmp(r) => *final(self) == Route::Qmp(r),
            },
    {
        match self {
            Route::InputLinux(uinput) => Some(uinput.builder()),
            Route::VirtioHost(uinput) => Some(uinput.builder()),
            Route::Qmp(_) => None,
        }
    }
}

/// A motion along one of a pointer's two axes keeps its axis and its value,
/// whatever the value is, and stays relative or absolute; a motion along any other
/// axis is left out.
pub proof fn motions_keep_their_values(
    e: InputEvent,
    qkeycodes: &[u8],
    event: Option<QmpInputEvent>,
)
    requires
        call_ensures(RouteQmp::convert_event, (&e, qkeycodes), event),
        e.kind is Relative || e.kind is Absolute,
    ensures
        event is Some <==> e.code == 0 || e.code == 1,
        event matches Some(own) ==> {
            let axis = if e.code == 0 {
                InputAxis::X
            } else {
                InputAxis::Y
            };
            &&& e.kind is Relative ==> (own matches QmpInputEvent::Rel { axis: a, value } && a
                == axis && value == e.value)
            &&& e.kind is Absolute ==> (own matches QmpInputEvent::Abs { axis: a, value } && a
                == axis && value == e.value)
        },
{
}

/// Two motions that are converted to the same are along the same axis and by the
/// same value.
pub proof fn different_motions_stay_different(
    a: InputEvent,
    b: InputEvent,
    qkeycodes: &[u8],
    event: QmpInputEvent,
)
    requires
        call_ensures(RouteQmp::convert_event, (&a, qkeycodes), Some(event)),
        call_ensures(RouteQmp::convert_event, (&b, qkeycodes), Some(event)),
        a.kind is Relative || a.kind is Absolute,
    ensures
        a.kind == b.kind,
        a.code == b.code,
        a.value == b.value,
{
}

/// Whether a code is one of a button, with the name that the machine control
/// protocol has for it.
pub open spec fn is_button_named(code: u16, button: InputButton) -> bool {
    ||| code == 0x110 && button is Left
    ||| code == 0x111 && button is Right
    ||| code == 0x112 && button is Middle
    ||| code == 0x113 && button is Side
    ||| code == 0x114 && button is Extra
    ||| code == 0x150 && button is WheelDown
    ||| code == 0x151 && button is WheelUp
}

/// A button that has a name is converted to its name, and one that has none is left
/// out. A key is converted to the number that the table has for its code, where it
/// has one; the code of no key is left out. Either is down exactly where it goes
/// down: a repetition and a release are not.
pub proof fn keys_are_looked_up(
    e: InputEvent,
    qkeycodes: &[u8],
    event: Option<QmpInputEvent>,
    button: InputButton,
)
    requires
        call_ensures(RouteQmp::convert_event, (&e, qkeycodes), event),
        e.kind is Key,
    ensures
        ({
            let is_button = 0x100 <= e.code < 0x160 || 0x2c0 <= e.code;
            &&& is_button_named(e.code, button) ==> event == Some(
                QmpInputEvent::Btn { down: e.value == 1, button },
            )
            &&& is_button && event is Some ==> {
                &&& event->0 matches QmpInputEvent::Btn { down, button: named }
                &&& is_button_named(e.code, named)
            }
            &&& !is_button && 0 < e.code < qkeycodes@.len() ==> {
                &&& event matches Some(QmpInputEvent::Key { down, qnum })
                &&& down == (e.value == 1)
                &&& qnum == qkeycodes@[e.code as int]
            }
            &&& !is_button && (e.code == 0 || e.code >= qkeycodes@.len()) ==> event is None
            &&& e.code >= 0x300 ==> event is None
        }),
{
}

/// Nothing but keys, buttons and motions is sent to the machine.
pub proof fn only_keys_and_motions_are_sent(
    e: InputEvent,
    qkeycodes: &[u8],
    event: Option<QmpInputEvent>,
)
    requires
        call_ensures(RouteQmp::convert_event, (&e, qkeycodes), event),
        !(e.kind is Key || e.kind is Relative || e.kind is Absolute),
    ensures
        event is None,
{
}

/// Events are converted one by one, and stay in order: those of a list are those of
/// its beginning and then those of its end, and a single event is converted as it
/// is on its own.
pub proof fn conversion_keeps_the_order(
    first: Vec<InputEvent>,
    second: Vec<InputEvent>,
    all: Vec<InputEvent>,
    qkeycodes: &[u8],
    of_first: Vec<QmpInputEvent>,
    of_second: Vec<QmpInputEvent>,
    of_all: Vec<QmpInputEvent>,
    e: InputEvent,
    event: Option<QmpInputEvent>,
)
    requires
        all@ == first@ + second@,
        call_ensures(RouteQmp::convert_events, (&first, qkeycodes), of_first),
        call_ensures(RouteQmp::convert_events, (&second, qkeycodes), of_second),
        call_ensures(RouteQmp::convert_events, (&all, qkeycodes), of_all),
        call_ensures(RouteQmp::convert_event, (&e, qkeycodes), event),
    ensures
        of_all@ == of_first@ + of_second@,
        first@.len() == 0 ==> of_first@.len() == 0,
        first@ == seq![e] ==> of_first@ == match event {
            Some(own) => seq![own],
            None => seq![],
        },
{
    lemma_converted_together(first@, second@, qkeycodes@);
    if first@ == seq![e] {
        reveal_with_fuel(all_converted, 2);
        assert(first@.drop_last() =~= Seq::<InputEvent>::empty());
        assert(first@.last() == e);
        assert(of_first@ =~= match event {
            Some(own) => seq![own],
            None => seq![],
        });
    }
}

proof fn lemma_converted_together(
    first: Seq<InputEvent>,
    second: Seq<InputEvent>,
    qkeycodes: Seq<u8>,
)
    ensures
        all_converted(first + second, qkeycodes) == all_converted(first, qkeycodes)
            + all_converted(second, qkeycodes),
    decreases second.len(),
{
    let all = first + second;
    if second.len() == 0 {
        assert(all =~= first);
        assert(all_converted(first, qkeycodes) + Seq::<QmpInputEvent>::empty() =~= all_converted(
            first,
            qkeycodes,
        ));
    } else {
        lemma_converted_together(first, second.drop_last(), qkeycodes);
        assert(all.drop_last() =~= first + second.drop_last());
        assert(all.last() == second.last());
        assert(all_converted(all, qkeycodes) =~= all_converted(first, qkeycodes) + all_converted(
            second,
            qkeycodes,
        ));
    }
}

/// A group of events starts with the first one alone, whatever was collected
/// before; each further one is added at the end, until there are more than 32, and
/// then they are sent. An event that is not converted adds nothing. With the end of
/// the events nothing is added.
pub proof fn events_are_collected_in_groups(
    before: RouteQmp,
    e: InputEvent,
    qkeycodes: &[u8],
    event: Option<QmpInputEvent>,
    started: RouteQmp,
    step: BatchStep,
    after: RouteQmp,
)
    requires
        qkeycodes@ == before.qkeycodes@,
        call_ensures(RouteQmp::convert_event, (&e, qkeycodes), event),
        exists|this: &mut RouteQmp, r: ()| #[trigger]
            call_ensures(RouteQmp::start, (this, &e), r) && *this == before && *final(this)
                == started,
        exists|this: &mut RouteQmp| #[trigger]
            call_ensures(RouteQmp::more, (this, Some(&e)), step) && *this == before && *final(this)
                == after,
    ensures
        ({
            let own = if event is Some {
                seq![event->0]
            } else {
                seq![]
            };
            &&& started.events@ == own
            &&& after.events@ == before.events@ + own
            &&& step is Send <==> after.events@.len() > 32
            &&& step is More <==> after.events@.len() <= 32
            &&& started.qkeycodes == before.qkeycodes && after.qkeycodes == before.qkeycodes
        }),
{
    let own = if event is Some {
        seq![event->0]
    } else {
        seq![]
    };
    reveal_with_fuel(all_converted, 2);
    assert(seq![e].drop_last() =~= Seq::<InputEvent>::empty());
    assert(started.events@ =~= own);
    assert(after.events@ =~= before.events@ + own);
}

/// At the end of the events nothing is added and nothing is sent. Events are sent
/// where there are any, and sending goes on but where the connection fails.
pub proof fn sending_ends_with_the_events(
    before: RouteQmp,
    step: BatchStep,
    after: RouteQmp,
    has_events: bool,
    outcome: SendOutcome,
    goes_on: bool,
)
    requires
        exists|this: &mut RouteQmp| #[trigger]
            call_ensures(RouteQmp::more, (this, None::<&InputEvent>), step) && *this == before
                && *final(this) == after,
        call_ensures(RouteQmp::has_events, (&before,), has_events),
        call_ensures(RouteQmp::goes_on, (outcome,), goes_on),
    ensures
        step is End,
        after.events@ == before.events@,
        has_events == (before.events@.len() != 0),
        goes_on == (outcome is Sent || outcome is GenericError),
{
}

/// A virtual device is made known to the guest by its path and under the id of its
/// route, and what undoes that is about the same id. An object that may be there
/// under this id leaves first.
pub proof fn devices_are_made_known_and_taken_back(
    virtio: RouteUInputVirtio,
    linux: RouteUInputInputLinux,
    path: &str,
    adds: Vec<RouteCommand>,
    removes: RouteCommand,
)
    ensures
        call_ensures(<RouteUInputVirtio as UInputCommands>::command_create, (&virtio, path), adds)
            ==> {
            &&& adds@.len() == 1
            &&& adds@[0] matches RouteCommand::DeviceAdd { command, delay }
            &&& delay == 512
            &&& command.driver@ == "virtio-input-host-pci"@
            &&& command.id == Some(virtio.id) && command.bus == virtio.bus
            &&& command.arguments@.len() == 2
            &&& command.arguments@[0].0@ == "evdev"@
            &&& command.arguments@[0].1 matches Argument::Text(text) && text@ == path@
            &&& command.arguments@[1].0@ == "multifunction"@
            &&& command.arguments@[1].1 == Argument::Flag(true)
        },
        call_ensures(<RouteUInputVirtio as UInputCommands>::command_delete, (&virtio,), removes)
            ==> removes == (RouteCommand::DeviceDel { id: virtio.id }),
        call_ensures(
            <RouteUInputInputLinux as UInputCommands>::command_create,
            (&linux, path),
            adds,
        ) ==> {
            &&& adds@.len() == 2
            &&& adds@[0] == (RouteCommand::ObjectReplace { id: linux.id, delay: 512 })
            &&& adds@[1] matches RouteCommand::ObjectAddInputLinux { id, evdev, repeat }
            &&& id == linux.id && evdev@ == path@ && repeat == linux.repeat
        },
        call_ensures(<RouteUInputInputLinux as UInputCommands>::command_delete, (&linux,), removes)
            ==> removes == (RouteCommand::ObjectDel { id: linux.id }),
{
}

/// A command that the machine refuses has failed, but for the deletion of what may
/// not be there; only after that deletion is there a wait.
pub proof fn only_replacing_may_fail(command: RouteCommand, ok: bool, step: CommandStep)
    requires
        call_ensures(RouteCommand::answered, (&command, ok), step),
    ensures
        step is Failed <==> !ok && !(command is ObjectReplace),
        step is Wait <==> ok && command is ObjectReplace,
        step matches CommandStep::Wait { delay } ==> (command matches RouteCommand::ObjectReplace {
            delay: own,
            ..
        } && delay == own),
{
}

/// The route that is made is the one that is configured, under the id, the bus and
/// the table of keys that are given, and with nothing to do yet.
pub proof fn routes_are_the_configured_ones(
    routing: ConfigQemuRouting,
    qkeycodes: Vec<u8>,
    id: String,
    bus: Option<String>,
    repeat: bool,
    route: Route,
)
    requires
        !(routing is Spice),
        call_ensures(Route::new, (routing, qkeycodes, id, bus, repeat), route),
    ensures
        routing is InputLinux <==> route is InputLinux,
        routing is VirtioHost <==> route is VirtioHost,
        routing is Qmp <==> route is Qmp,
        route matches Route::InputLinux(r) ==> r.commands.id == id && r.commands.repeat == repeat,
        route matches Route::VirtioHost(r) ==> r.commands.id == id && r.commands.bus == bus,
        route matches Route::Qmp(r) ==> r.qkeycodes == qkeycodes && r.events@.len() == 0,
{
}

/// Events that could not be written are what went wrong; otherwise giving up the
/// device may be.
pub proof fn the_first_error_counts<U, E>(
    written: Result<(), E>,
    deleted: Result<(), E>,
    outcome: Result<(), E>,
)
    requires
        call_ensures(RouteUInput::<U>::outcome::<E>, (written, deleted), outcome),
    ensures
        outcome is Ok <==> written is Ok && deleted is Ok,
        written matches Err(error) ==> outcome == Err::<(), E>(error),
        written is Ok && deleted is Err ==> outcome == deleted,
{
}

/// The route over the machine control protocol has the numbers of keys that the table
/// lists by their codes.
pub proof fn routes_have_the_numbers_of_the_table(
    data: &[u8],
    route: Result<RouteQmp, BadTable>,
    table: Result<Keymaps, BadTable>,
)
    requires
        call_ensures(RouteQmp::from_table, (data,), route),
        call_ensures(Keymaps::from_csv, (data,), table),
    ensures
        route is Ok <==> table is Ok,
        route matches Ok(own) ==> own.events@.len() == 0 && exists|keymaps: Seq<Keymap>|
            are_rows(keymaps, csv_rows(data@)->0) && own.qkeycodes@ == #[trigger] qnums(keymaps),
{
}

} // verus!
