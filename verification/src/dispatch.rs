//! Which device an event goes to, and what the main loop does.

use crate::config::{ConfigEvent, ConfigHotkey, ConfigScreen, ConfigSourceName};
use crate::event::{processed, Hotkey, ProcessedXEvent, UserEvent};
use crate::filter::InputEventFilter;
use crate::input::{
    absolute_axis_from_code_ok, is_button_code, relative_axis_from_code_ok, EventKind, InputEvent,
    Key, ABS_VOLUME, ABS_X, ABS_Y, BUS_VIRTUAL, KEY_COUNT, REL_X, REL_Y,
};
use crate::process::{ActionModel, InputDevice, ProcessError, ProcessModel};
use crate::text::{hex_pair, push_hex_pair, same_text};
use crate::uinput::{Builder, BuilderModel, InputId};
use crate::x::XEvent;
use std::sync::Arc;
use vstd::prelude::*;

verus! {

/// Whether a relative axis is one of a pointer.
pub fn axis_is_relative(axis: u16) -> (relative: bool)
    ensures
        relative == (axis == REL_X || axis == REL_Y),
{
    axis == REL_X || axis == REL_Y
}

/// Whether an absolute axis is one of a pointer.
pub fn axis_is_absolute(axis: u16) -> (absolute: bool)
    ensures
        absolute == (axis == ABS_X || axis == ABS_Y),
{
    axis == ABS_X || axis == ABS_Y
}

/// What the user asks for by an event of the window.
pub open spec fn user_event_of(event: UserEvent) -> ConfigEvent {
    match event {
        UserEvent::Quit => ConfigEvent::Exit,
        UserEvent::ShowGuest => ConfigEvent::ShowGuest,
        UserEvent::ShowHost => ConfigEvent::ShowHost,
        UserEvent::UnstickGuest => ConfigEvent::UnstickGuest,
        UserEvent::UnstickHost => ConfigEvent::UnstickHost,
    }
}

pub fn convert_user_event(event: UserEvent) -> (converted: Arc<ConfigEvent>)
    ensures
        *converted == user_event_of(event),
{
    Arc::new(
        match event {
            UserEvent::Quit => ConfigEvent::Exit,
            UserEvent::ShowGuest => ConfigEvent::ShowGuest,
            UserEvent::ShowHost => ConfigEvent::ShowHost,
            UserEvent::UnstickGuest => ConfigEvent::UnstickGuest,
            UserEvent::UnstickHost => ConfigEvent::UnstickHost,
        },
    )
}

/// The hotkey that is configured, and whether it acts on a press.
pub fn convert_hotkey(hotkey: ConfigHotkey) -> (converted: (Hotkey<Arc<ConfigEvent>>, bool))
    ensures
        converted.0.trigger_keys() == hotkey.triggers@,
        converted.0.modifier_keys() == hotkey.modifiers@,
        converted.0.caused().map_values(|e: Arc<ConfigEvent>| *e) == hotkey.events@,
        converted.1 == !hotkey.on_release,
{
    let mut events: Vec<Arc<ConfigEvent>> = Vec::new();
    for event in iter: hotkey.events
        invariant
            events@.len() == iter.index(),
            iter.seq() == hotkey.events@,
            forall|i: int| 0 <= i < events@.len() ==> *(#[trigger] events@[i]) == iter.seq()[i],
    {
        events.push(Arc::new(event));
    }
    assert(events@.map_values(|e: Arc<ConfigEvent>| *e) =~= hotkey.events@);
    (Hotkey::new(hotkey.triggers, hotkey.modifiers, events), !hotkey.on_release)
}

/// The kind of the pointer that is in use.
pub open spec fn pointer_kind(is_mouse: bool) -> EventKind {
    if is_mouse {
        EventKind::Relative
    } else {
        EventKind::Absolute
    }
}

/// The kind of device that an event goes to. Buttons, and axes that no pointer
/// has, go to the pointer that is in use; the volume goes to the keyboard.
pub open spec fn mapped_kind(e: InputEvent, is_mouse: bool) -> EventKind {
    match e.kind {
        EventKind::Key => if e.code < KEY_COUNT && is_button_code(e.code) {
            pointer_kind(is_mouse)
        } else {
            EventKind::Key
        },
        EventKind::Absolute => if e.code == ABS_VOLUME {
            EventKind::Key
        } else if e.code == ABS_X || e.code == ABS_Y {
            EventKind::Absolute
        } else {
            pointer_kind(is_mouse)
        },
        EventKind::Relative => if e.code == REL_X || e.code == REL_Y {
            EventKind::Relative
        } else {
            pointer_kind(is_mouse)
        },
        kind => kind,
    }
}

pub fn map_event_kind(inputevent: &InputEvent, is_mouse: bool) -> (kind: EventKind)
    ensures
        kind == mapped_kind(*inputevent, is_mouse),
{
    let pointer = if is_mouse {
        EventKind::Relative
    } else {
        EventKind::Absolute
    };
    match inputevent.kind {
        EventKind::Key => {
            let button = match Key::from_code(inputevent.code) {
                Some(key) => key.is_button(),
                None => false,
            };
            if button {
                pointer
            } else {
                EventKind::Key
            }
        },
        EventKind::Absolute => {
            if inputevent.code == ABS_VOLUME {
                EventKind::Key
            } else if absolute_axis_from_code_ok(inputevent.code) && axis_is_absolute(
                inputevent.code,
            ) {
                EventKind::Absolute
            } else {
                pointer
            }
        },
        EventKind::Relative => {
            if relative_axis_from_code_ok(inputevent.code) && axis_is_relative(inputevent.code) {
                EventKind::Relative
            } else {
                pointer
            }
        },
        kind => kind,
    }
}

/// The devices that an event is sent to.
#[derive(Debug, Clone, Copy, PartialEq, Eq, Structural)]
pub struct Targets {
    pub keyboard: bool,
    pub relative: bool,
    pub absolute: bool,
}

/// The devices that an event is sent to: the one of its kind, all where it ends
/// a group, none where it is of a kind that is not forwarded.
pub fn event_targets(inputevent: &InputEvent, is_mouse: bool) -> (targets: Targets)
    ensures
        ({
            let kind = mapped_kind(*inputevent, is_mouse);
            targets == (Targets {
                keyboard: kind is Key || kind is Synchronize,
                relative: kind is Relative || kind is Synchronize,
                absolute: kind is Absolute || kind is Synchronize,
            })
        }),
{
    match map_event_kind(inputevent, is_mouse) {
        EventKind::Key => Targets { keyboard: true, relative: false, absolute: false },
        EventKind::Relative => Targets { keyboard: false, relative: true, absolute: false },
        EventKind::Absolute => Targets { keyboard: false, relative: false, absolute: true },
        EventKind::Synchronize => Targets { keyboard: true, relative: true, absolute: true },
        _ => Targets { keyboard: false, relative: false, absolute: false },
    }
}

/// What becomes of something that an event of the window led to.
#[derive(Debug)]
pub enum XDispatch {
    User(Arc<ConfigEvent>),
    Forward(InputEvent),
    Drop,
}

/// Events of the user are acted on; input is forwarded where the filter lets
/// it pass.
pub fn dispatch_x_event(e: ProcessedXEvent, filter: &InputEventFilter) -> (dispatch: XDispatch)
    ensures
        match e {
            ProcessedXEvent::UserEvent(e) => dispatch matches XDispatch::User(c) && *c
                == user_event_of(e),
            ProcessedXEvent::InputEvent(e) => if filter.passes(e) {
                dispatch == XDispatch::Forward(e)
            } else {
                dispatch is Drop
            },
        },
{
    match e {
        ProcessedXEvent::UserEvent(e) => XDispatch::User(convert_user_event(e)),
        ProcessedXEvent::InputEvent(e) => {
            if filter.filter_event(&e) {
                XDispatch::Forward(e)
            } else {
                XDispatch::Drop
            }
        },
    }
}

/// The monitor follows the window: once the window is visible the guest is
/// shown, and once it is hidden the host is.
pub proof fn the_monitor_follows_the_window(
    visible: bool,
    codes: Seq<u16>,
    process: ProcessModel,
    showing_guest: Option<bool>,
)
    ensures
        ({
            let event = if visible {
                UserEvent::ShowGuest
            } else {
                UserEvent::ShowHost
            };
            let action = if visible {
                ActionModel::ShowGuest
            } else {
                ActionModel::ShowHost
            };
            &&& processed(XEvent::Visible(visible), codes) == seq![
                ProcessedXEvent::UserEvent(event),
            ]
            &&& process.event_plan(user_event_of(event), showing_guest) == Ok::<
                Seq<ActionModel>,
                ProcessError,
            >(seq![action])
            &&& process.after_event(user_event_of(event)) == process
        }),
{
}

/// There is no screen with the number that was asked for.
#[derive(Debug, Clone, Copy, PartialEq, Eq, Structural)]
pub struct NoScreen;

impl NoScreen {
    pub fn message(&self) -> (message: &'static str)
        ensures
            message@ == "expected a screen config"@,
    {
        "expected a screen config"
    }
}

/// The screen with a number.
pub fn select_screen(screens: Vec<ConfigScreen>, index: usize) -> (screen: Result<
    ConfigScreen,
    NoScreen,
>)
    ensures
        screen == if index < screens@.len() {
            Ok(screens@[index as int])
        } else {
            Err(NoScreen)
        },
{
    let mut screens = screens;
    if index < screens.len() {
        Ok(screens.swap_remove(index))
    } else {
        Err(NoScreen)
    }
}

/// What describes a source of a monitor.
pub open spec fn source_text(source: u8, current: u8) -> Seq<char> {
    "  Source: "@ + (if 1 <= source <= 0x12 {
        source_name(source)
    } else {
        "Unknown"@
    }) + " = 0x"@ + hex_pair(source) + (if source == current {
        " (Active)"@
    } else {
        Seq::empty()
    })
}

/// The name of the source with a value.
pub open spec fn source_name(source: u8) -> Seq<char> {
    (choose|name: ConfigSourceName| name.number() == source).text()
}

/// The line that describes a source of a monitor.
pub fn source_line(source: u8, current: u8) -> (line: String)
    ensures
        line@ == source_text(source, current),
{
    let mut line = String::from_str("  Source: ");
    match ConfigSourceName::from_value(source) {
        Some(name) => {
            line.append(name.name());
            proof {
                let chosen = choose|name: ConfigSourceName| name.number() == source;
                assert(chosen.number() == source);
                crate::config::source_values_are_distinct(name, chosen);
            }
        },
        None => {
            line.append("Unknown");
        },
    }
    line.append(" = 0x");
    push_hex_pair(&mut line, source);
    if source == current {
        line.append(" (Active)");
    }
    assert(line@ =~= source_text(source, current));
    line
}

/// Whether to show the host, by the name of the destination.
pub fn destination_is_host(destination: &str) -> (host: Option<bool>)
    ensures
        host == if destination@ == "host"@ {
            Some(true)
        } else if destination@ == "guest"@ {
            Some(false)
        } else {
            None
        },
{
    if same_text(destination, "host") {
        Some(true)
    } else if same_text(destination, "guest") {
        Some(false)
    } else {
        None
    }
}

/// A button is never forwarded to the keyboard, and a key never to a pointer.
pub proof fn keys_and_buttons_part(e: InputEvent, is_mouse: bool)
    requires
        e.kind is Key,
        e.code < KEY_COUNT,
    ensures
        mapped_kind(e, is_mouse) is Key <==> !is_button_code(e.code),
        is_button_code(e.code) ==> mapped_kind(e, is_mouse) == pointer_kind(is_mouse),
{
}

/// The identity of the devices that are made.
pub open spec fn own_identity() -> InputId {
    InputId { bustype: BUS_VIRTUAL, vendor: 0x16c0, product: 0x05df, version: 1 }
}

pub fn device_identity() -> (id: InputId)
    ensures
        id == own_identity(),
{
    InputId { bustype: BUS_VIRTUAL, vendor: 0x16c0, product: 0x05df, version: 1 }
}

/// The id of the route that a device's events take.
pub fn route_id(device: InputDevice) -> (id: &'static str)
    ensures
        id@ == match device {
            InputDevice::Keyboard => "screenstub-route-kbd"@,
            InputDevice::Relative => "screenstub-route-mouse"@,
            InputDevice::Absolute => "screenstub-route-tablet"@,
        },
{
    match device {
        InputDevice::Keyboard => "screenstub-route-kbd",
        InputDevice::Relative => "screenstub-route-mouse",
        InputDevice::Absolute => "screenstub-route-tablet",
    }
}

/// What a device is to be: its name, what it can do, and its identity. Keys are
/// not repeated, which the guest does itself.
pub open spec fn configured(model: BuilderModel, device: InputDevice) -> BuilderModel {
    let named = BuilderModel {
        name: match device {
            InputDevice::Keyboard => "screenstub-kbd"@,
            InputDevice::Relative => "screenstub-mouse"@,
            InputDevice::Absolute => "screenstub-tablet"@,
        },
        ..model
    };
    let able = match device {
        InputDevice::Keyboard => named.with_keys(false),
        InputDevice::Relative => named.with_mouse(),
        InputDevice::Absolute => named.with_tablet(),
    };
    BuilderModel { id: own_identity(), ..able }
}

/// Says what a device is to be.
pub fn configure_device(device: InputDevice, builder: &mut Builder)
    ensures
        final(builder).model() == configured(old(builder).model(), device),
{
    let id = device_identity();
    match device {
        InputDevice::Keyboard => {
            builder.name("screenstub-kbd").x_config_key(false).id(&id);
        },
        InputDevice::Relative => {
            builder.name("screenstub-mouse").x_config_rel().id(&id);
        },
        InputDevice::Absolute => {
            builder.name("screenstub-tablet").x_config_abs().id(&id);
        },
    }
}

/// The id of the route to a new device that a grab sends its events to.
pub fn grab_route_id(name: &str) -> (id: String)
    ensures
        id@ == "screenstub-uinput-"@ + name@,
{
    String::from_str("screenstub-uinput-").concat(name)
}

/// What the main loop is told of.
#[derive(Debug, Clone, Copy, PartialEq, Eq, Structural)]
pub enum LoopEvent {
    /// The window sends no more events.
    WindowGone,
    /// Something failed that the program cannot go on without.
    Failed,
    /// The user asks for something.
    User,
    /// One of the senders is gone.
    SenderGone,
}

/// What the main loop does.
#[derive(Debug, Clone, Copy, PartialEq, Eq, Structural)]
pub enum LoopStep {
    Succeed,
    Fail,
    /// Process what the user asks for, while the loop goes on.
    Process,
    GoOn,
}

/// The main loop ends well once the window is gone, and badly on a failure.
pub fn main_loop_step(event: LoopEvent) -> (step: LoopStep)
    ensures
        step == match event {
            LoopEvent::WindowGone => LoopStep::Succeed,
            LoopEvent::Failed => LoopStep::Fail,
            LoopEvent::User => LoopStep::Process,
            LoopEvent::SenderGone => LoopStep::GoOn,
        },
{
    match event {
        LoopEvent::WindowGone => LoopStep::Succeed,
        LoopEvent::Failed => LoopStep::Fail,
        LoopEvent::User => LoopStep::Process,
        LoopEvent::SenderGone => LoopStep::GoOn,
    }
}

/// What the window asks for is what the user can ask for by the same name.
pub proof fn window_requests_are_the_users(event: UserEvent, converted: Arc<ConfigEvent>)
    requires
        call_ensures(convert_user_event, (event,), converted),
    ensures
        event is Quit <==> *converted is Exit,
        event is ShowGuest <==> *converted is ShowGuest,
        event is ShowHost <==> *converted is ShowHost,
        event is UnstickGuest <==> *converted is UnstickGuest,
        event is UnstickHost <==> *converted is UnstickHost,
{
}

/// A hotkey keeps its keys and its events, all of them and in order, and acts on a
/// press unless it is one for a release.
pub proof fn hotkeys_are_the_configured_ones(
    hotkey: ConfigHotkey,
    converted: (Hotkey<Arc<ConfigEvent>>, bool),
)
    requires
        call_ensures(convert_hotkey, (hotkey,), converted),
    ensures
        converted.0.trigger_keys() == hotkey.triggers@,
        converted.0.modifier_keys() == hotkey.modifiers@,
        converted.0.caused().len() == hotkey.events@.len(),
        forall|i: int|
            0 <= i < hotkey.events@.len() ==> *(#[trigger] converted.0.caused()[i])
                == hotkey.events@[i],
        converted.1 <==> !hotkey.on_release,
{
    let events = converted.0.caused().map_values(|e: Arc<ConfigEvent>| *e);
    assert(events == hotkey.events@);
    assert(events.len() == converted.0.caused().len());
    assert forall|i: int| 0 <= i < hotkey.events@.len() implies *(
    #[trigger] converted.0.caused()[i]) == hotkey.events@[i] by {
        assert(events[i] == *converted.0.caused()[i]);
    }
}

/// An event goes to exactly one device, but for the one that ends a group, which
/// goes to all, and for those of other kinds, which go to none. Keys and the volume
/// go to the keyboard, the two axes of the mouse to the mouse, those of the tablet
/// to the tablet, and buttons and wheels to the one of the two that is in use.
pub proof fn events_go_to_their_device(e: InputEvent, is_mouse: bool, targets: Targets)
    requires
        call_ensures(event_targets, (&e, is_mouse), targets),
    ensures
        ({
            let button = e.kind is Key && (0x100 <= e.code < 0x160 || 0x2c0 <= e.code < 0x300);
            let own_relative = e.kind is Relative && (e.code == 0 || e.code == 1);
            let own_absolute = e.kind is Absolute && (e.code == 0 || e.code == 1);
            let volume = e.kind is Absolute && e.code == 0x20;
            let shared = button || e.kind is Relative && !own_relative || e.kind is Absolute
                && !own_absolute && !volume;
            let all = e.kind is Synchronize;
            &&& targets.keyboard <==> all || volume || e.kind is Key && !button
            &&& targets.relative <==> all || own_relative || shared && is_mouse
            &&& targets.absolute <==> all || own_absolute || shared && !is_mouse
        }),
{
}

/// Input of the window is forwarded unchanged or not at all, as the filter has it;
/// what it asks for is acted on whatever the filter has.
pub proof fn input_is_forwarded_unchanged(
    e: ProcessedXEvent,
    filter: InputEventFilter,
    input: InputEvent,
    pass: bool,
    dispatch: XDispatch,
)
    requires
        call_ensures(dispatch_x_event, (e, &filter), dispatch),
        call_ensures(InputEventFilter::filter_event, (&filter, &input), pass),
    ensures
        e == ProcessedXEvent::InputEvent(input) ==> {
            &&& pass ==> dispatch == XDispatch::Forward(input)
            &&& !pass ==> dispatch is Drop
        },
        e matches ProcessedXEvent::UserEvent(event) ==> {
            &&& dispatch matches XDispatch::User(asked)
            &&& event is Quit <==> *asked is Exit
            &&& event is ShowGuest <==> *asked is ShowGuest
            &&& event is ShowHost <==> *asked is ShowHost
            &&& event is UnstickGuest <==> *asked is UnstickGuest
            &&& event is UnstickHost <==> *asked is UnstickHost
        },
{
}

/// A screen is selected by its number, counted from the first one; there is none
/// beyond the last.
pub proof fn screens_are_counted(
    screens: Vec<ConfigScreen>,
    index: usize,
    screen: Result<ConfigScreen, NoScreen>,
)
    requires
        call_ensures(select_screen, (screens, index), screen),
    ensures
        screen is Err <==> index >= screens@.len(),
        screen matches Ok(own) ==> own == screens@[index as int],
{
}

/// The line of a source tells its name where it has one, its value, and whether it
/// is the one that is shown.
pub proof fn lines_tell_of_their_source(
    source: u8,
    current: u8,
    line: String,
    named: Option<ConfigSourceName>,
    name: &'static str,
)
    requires
        call_ensures(source_line, (source, current), line),
        call_ensures(ConfigSourceName::from_value, (source,), named),
        named matches Some(own) ==> call_ensures(ConfigSourceName::name, (&own,), name),
    ensures
        line@ == "  Source: "@ + (if named is Some {
            name@
        } else {
            "Unknown"@
        }) + " = 0x"@ + hex_pair(source) + (if source == current {
            " (Active)"@
        } else {
            Seq::empty()
        }),
{
    if let Some(own) = named {
        let chosen = choose|name: ConfigSourceName| name.number() == source;
        assert(own.number() == source);
        crate::config::source_values_are_distinct(own, chosen);
    }
}

/// Only the host and the guest are destinations.
pub proof fn destinations_are_named(destination: &str, host: Option<bool>)
    requires
        call_ensures(destination_is_host, (destination,), host),
    ensures
        host == Some(true) <==> destination@ == "host"@,
        host == Some(false) <==> destination@ == "guest"@,
{
    reveal_strlit("host");
    reveal_strlit("guest");
    assert("host"@.len() != "guest"@.len());
}

/// A device that is made has a name and a route of its own, and the identity that
/// all of them share. A keyboard has all keys but no buttons, and does not repeat
/// them; a mouse has the buttons, its two axes and the wheels; a tablet has the
/// buttons, its two axes over the range of the screen, and the wheels.
pub proof fn devices_are_what_they_are_named(device: InputDevice, before: Builder, after: Builder)
    requires
        before.model() == BuilderModel::nothing(),
        exists|builder: &mut Builder, r: ()| #[trigger]
            call_ensures(configure_device, (device, builder), r) && *builder == before
                && *final(builder) == after,
    ensures
        after.name@ == if device is Keyboard {
            "screenstub-kbd"@
        } else if device is Relative {
            "screenstub-mouse"@
        } else {
            "screenstub-tablet"@
        },
        after.id == (InputId { bustype: 0x06, vendor: 0x16c0, product: 0x05df, version: 1 }),
        forall|code: u16| #[trigger]
            after.model().keys.contains(code) <==> code < 0x300 && (device is Keyboard <==> !(0x100
                <= code < 0x160 || 0x2c0 <= code)),
        forall|code: u16| #[trigger]
            after.model().events.contains(code) <==> {
                ||| code == 1
                ||| code == 2 && !(device is Keyboard)
                ||| code == 3 && device is Absolute
            },
        forall|code: u16| #[trigger]
            after.model().rel.contains(code) <==> {
                ||| (code == 0 || code == 1) && device is Relative
                ||| (code == 6 || code == 8) && !(device is Keyboard)
            },
        forall|code: u16| #[trigger]
            after.model().abs_axes.contains(code) <==> (code == 0 || code == 1)
                && device is Absolute,
        after.abs@.len() == if device is Absolute {
            2
        } else {
            0nat
        },
        forall|i: int|
            0 <= i < after.abs@.len() ==> {
                &&& (#[trigger] after.abs@[i]).axis == i
                &&& after.abs@[i].info.minimum == 0
                &&& after.abs@[i].info.maximum == 0x8000
                &&& after.abs@[i].info.value == 0
                &&& after.abs@[i].info.fuzz == 0
                &&& after.abs@[i].info.flat == 0
                &&& after.abs@[i].info.resolution == 1
            },
{
}

/// The routes of the three devices have ids of their own.
pub proof fn routes_have_ids(device: InputDevice, id: &'static str)
    requires
        call_ensures(route_id, (device,), id),
    ensures
        device is Keyboard ==> id@ == "screenstub-route-kbd"@,
        device is Relative ==> id@ == "screenstub-route-mouse"@,
        device is Absolute ==> id@ == "screenstub-route-tablet"@,
{
}

/// The main loop ends well only once the window is gone, and badly only on a
/// failure; it goes on otherwise, and processes exactly what the user asks for.
pub proof fn the_loop_ends_with_the_window(event: LoopEvent, step: LoopStep)
    requires
        call_ensures(main_loop_step, (event,), step),
    ensures
        step is Succeed <==> event is WindowGone,
        step is Fail <==> event is Failed,
        step is Process <==> event is User,
        step is GoOn <==> event is SenderGone,
{
}

/// The route to a new device of a grab is told apart by the name of the device.
pub proof fn grabs_have_routes_by_name(name: &str, id: String)
    requires
        call_ensures(grab_route_id, (name,), id),
    ensures
        id@ == "screenstub-uinput-"@ + name@,
{
}

} // verus!
