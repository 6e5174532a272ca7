//! How a session with the X server starts.

use super::protocol::{
    AtomName, DeviceMask, Screen, Setup, XCommand, XIEventMask, ALL_DEVICES, WINDOW_EVENTS,
    XKB_DETECTABLE_AUTO_REPEAT, XKB_USE_CORE_KBD,
};
use vstd::prelude::*;

verus! {

/// The opcodes of the extensions that the server has.
#[derive(Debug, Clone, Copy, PartialEq, Eq, Structural)]
pub struct Extensions {
    pub input: Option<u8>,
    pub xkb: Option<u8>,
    pub test: Option<u8>,
    pub dpms: Option<u8>,
}

/// A step of starting the session.
#[derive(Debug, Clone, Copy, PartialEq, Eq, Structural)]
pub enum SetupStep {
    InputVersion { major_opcode: u8 },
    UseXkb { major_opcode: u8 },
    CreateWindow,
    WatchDevices { major_opcode: u8 },
    DetectableAutoRepeat { major_opcode: u8 },
    KeyboardMapping,
    ModifierMapping,
    InternAtom(AtomName),
}

/// A step that is only there with an extension.
pub open spec fn with_extension(
    major_opcode: Option<u8>,
    step: spec_fn(u8) -> SetupStep,
) -> Seq<SetupStep> {
    match major_opcode {
        Some(major_opcode) => seq![step(major_opcode)],
        None => Seq::empty(),
    }
}

/// The steps of starting the session.
pub open spec fn setup_plan(extensions: Extensions) -> Seq<SetupStep> {
    with_extension(extensions.input, |major_opcode: u8| SetupStep::InputVersion { major_opcode })
        + with_extension(extensions.xkb, |major_opcode: u8| SetupStep::UseXkb { major_opcode })
        + seq![SetupStep::CreateWindow] + with_extension(
        extensions.input,
        |major_opcode: u8| SetupStep::WatchDevices { major_opcode },
    ) + with_extension(
        extensions.xkb,
        |major_opcode: u8| SetupStep::DetectableAutoRepeat { major_opcode },
    ) + seq![
        SetupStep::KeyboardMapping,
        SetupStep::ModifierMapping,
        SetupStep::InternAtom(AtomName::WmState),
        SetupStep::InternAtom(AtomName::WmProtocols),
        SetupStep::InternAtom(AtomName::WmDeleteWindow),
        SetupStep::InternAtom(AtomName::NetWmState),
        SetupStep::InternAtom(AtomName::NetWmStateFullscreen),
    ]
}

/// The steps of starting the session, in order; an error in one of them ends
/// it.
pub fn setup_steps(extensions: &Extensions) -> (steps: Vec<SetupStep>)
    ensures
        steps@ == setup_plan(*extensions),
{
    let mut steps: Vec<SetupStep> = Vec::new();
    if let Some(major_opcode) = extensions.input {
        steps.push(SetupStep::InputVersion { major_opcode });
    }
    if let Some(major_opcode) = extensions.xkb {
        steps.push(SetupStep::UseXkb { major_opcode });
    }
    steps.push(SetupStep::CreateWindow);
    if let Some(major_opcode) = extensions.input {
        steps.push(SetupStep::WatchDevices { major_opcode });
    }
    if let Some(major_opcode) = extensions.xkb {
        steps.push(SetupStep::DetectableAutoRepeat { major_opcode });
    }
    steps.push(SetupStep::KeyboardMapping);
    steps.push(SetupStep::ModifierMapping);
    steps.push(SetupStep::InternAtom(AtomName::WmState));
    steps.push(SetupStep::InternAtom(AtomName::WmProtocols));
    steps.push(SetupStep::InternAtom(AtomName::WmDeleteWindow));
    steps.push(SetupStep::InternAtom(AtomName::NetWmState));
    steps.push(SetupStep::InternAtom(AtomName::NetWmStateFullscreen));
    assert(steps@ =~= setup_plan(*extensions));
    steps
}

/// Whether a command carries out a step of starting the session.
pub open spec fn carries_out(
    command: XCommand,
    step: SetupStep,
    setup: Setup,
    screen: Screen,
    window: u32,
) -> bool {
    match step {
        SetupStep::InputVersion { major_opcode } => command == (XCommand::XIQueryVersion {
            major_opcode,
            major_version: 2,
            minor_version: 3,
        }),
        SetupStep::UseXkb { major_opcode } => command == (XCommand::XkbUseExtension {
            major_opcode,
            wanted_major: 1,
            wanted_minor: 0,
        }),
        SetupStep::CreateWindow => command == (XCommand::CreateWindow {
            wid: window,
            parent: screen.root,
            width: screen.width_in_pixels,
            height: screen.height_in_pixels,
            visual: screen.root_visual,
            background_pixel: screen.black_pixel,
            event_mask: WINDOW_EVENTS,
        }),
        SetupStep::WatchDevices { major_opcode } => command matches XCommand::XISelectEvents {
            major_opcode: opcode,
            window: target,
            masks,
        } && opcode == major_opcode && target == window && masks@ == seq![
            DeviceMask { deviceid: ALL_DEVICES, mask: XIEventMask::DeviceChanged },
        ],
        SetupStep::DetectableAutoRepeat { major_opcode } => command == (
        XCommand::XkbPerClientFlags {
            major_opcode,
            device_spec: XKB_USE_CORE_KBD,
            change: XKB_DETECTABLE_AUTO_REPEAT,
            value: XKB_DETECTABLE_AUTO_REPEAT,
        }),
        SetupStep::KeyboardMapping => command == (XCommand::GetKeyboardMapping {
            first_keycode: setup.min_keycode,
            count: (setup.max_keycode - setup.min_keycode) as u8,
        }),
        SetupStep::ModifierMapping => command == XCommand::GetModifierMapping,
        SetupStep::InternAtom(name) => command == (XCommand::InternAtom { name }),
    }
}

/// The request that carries out a step of starting the session.
pub fn setup_command(step: SetupStep, setup: &Setup, screen: &Screen, window: u32) -> (command:
    XCommand)
    requires
        setup.min_keycode <= setup.max_keycode,
    ensures
        carries_out(command, step, *setup, *screen, window),
{
    match step {
        SetupStep::InputVersion { major_opcode } => XCommand::XIQueryVersion {
            major_opcode,
            major_version: 2,
            minor_version: 3,
        },
        SetupStep::UseXkb { major_opcode } => XCommand::XkbUseExtension {
            major_opcode,
            wanted_major: 1,
            wanted_minor: 0,
        },
        SetupStep::CreateWindow => XCommand::CreateWindow {
            wid: window,
            parent: screen.root,
            width: screen.width_in_pixels,
            height: screen.height_in_pixels,
            visual: screen.root_visual,
            background_pixel: screen.black_pixel,
            event_mask: WINDOW_EVENTS,
        },
        SetupStep::WatchDevices { major_opcode } => {
            let mut masks: Vec<DeviceMask> = Vec::new();
            masks.push(DeviceMask { deviceid: ALL_DEVICES, mask: XIEventMask::DeviceChanged });
            XCommand::XISelectEvents { major_opcode, window, masks }
        },
        SetupStep::DetectableAutoRepeat { major_opcode } => XCommand::XkbPerClientFlags {
            major_opcode,
            device_spec: XKB_USE_CORE_KBD,
            change: XKB_DETECTABLE_AUTO_REPEAT,
            value: XKB_DETECTABLE_AUTO_REPEAT,
        },
        SetupStep::KeyboardMapping => XCommand::GetKeyboardMapping {
            first_keycode: setup.min_keycode,
            count: setup.max_keycode - setup.min_keycode,
        },
        SetupStep::ModifierMapping => XCommand::GetModifierMapping,
        SetupStep::InternAtom(name) => XCommand::InternAtom { name },
    }
}

/// A session starts with one window, with what the keys and the modifiers are, and
/// with all of its atoms; and with each extension that the server has, by its own
/// opcode. Devices are watched once the window is there.
pub proof fn sessions_start_with_what_there_is(extensions: Extensions, steps: Vec<SetupStep>)
    requires
        call_ensures(setup_steps, (&extensions,), steps),
    ensures
        ({
            let input = if extensions.input is Some {
                1int
            } else {
                0
            };
            let xkb = if extensions.xkb is Some {
                1int
            } else {
                0
            };
            let start = input + xkb;
            let rest = start + 1 + input + xkb;
            &&& steps@.len() == rest + 7
            &&& extensions.input matches Some(major_opcode) ==> steps@[0] == (
            SetupStep::InputVersion { major_opcode }) && steps@[start + 1] == (
            SetupStep::WatchDevices { major_opcode })
            &&& extensions.xkb matches Some(major_opcode) ==> steps@[input] == (SetupStep::UseXkb {
                major_opcode,
            }) && steps@[start + 1 + input] == (SetupStep::DetectableAutoRepeat { major_opcode })
            &&& steps@[start] is CreateWindow
            &&& steps@[rest] is KeyboardMapping
            &&& steps@[rest + 1] is ModifierMapping
            &&& steps@[rest + 2] == SetupStep::InternAtom(AtomName::WmState)
            &&& steps@[rest + 3] == SetupStep::InternAtom(AtomName::WmProtocols)
            &&& steps@[rest + 4] == SetupStep::InternAtom(AtomName::WmDeleteWindow)
            &&& steps@[rest + 5] == SetupStep::InternAtom(AtomName::NetWmState)
            &&& steps@[rest + 6] == SetupStep::InternAtom(AtomName::NetWmStateFullscreen)
        }),
{
}

/// The window covers the screen that it is on and asks for input, for its focus and
/// for whether it is visible; changes of devices are asked for on it; all keys are
/// asked for, from the lowest one on; and an atom is asked for by its name.
pub proof fn steps_are_requests(
    step: SetupStep,
    setup: Setup,
    screen: Screen,
    window: u32,
    command: XCommand,
)
    requires
        setup.min_keycode <= setup.max_keycode,
        call_ensures(setup_command, (step, &setup, &screen, window), command),
    ensures
        step matches SetupStep::InputVersion { major_opcode } ==> command == (
        XCommand::XIQueryVersion { major_opcode, major_version: 2, minor_version: 3 }),
        step matches SetupStep::UseXkb { major_opcode } ==> command == (XCommand::XkbUseExtension {
            major_opcode,
            wanted_major: 1,
            wanted_minor: 0,
        }),
        step is CreateWindow ==> command == (XCommand::CreateWindow {
            wid: window,
            parent: screen.root,
            width: screen.width_in_pixels,
            height: screen.height_in_pixels,
            visual: screen.root_visual,
            background_pixel: screen.black_pixel,
            event_mask: 0x63_204f,
        }),
        step matches SetupStep::WatchDevices { major_opcode } ==> {
            &&& command matches XCommand::XISelectEvents { major_opcode: own, window: on, masks }
            &&& own == major_opcode && on == window
            &&& masks@.len() == 1 && masks@[0].deviceid == 0 && masks@[0].mask is DeviceChanged
        },
        step matches SetupStep::DetectableAutoRepeat { major_opcode } ==> command == (
        XCommand::XkbPerClientFlags { major_opcode, device_spec: 0x100, change: 1, value: 1 }),
        step is KeyboardMapping ==> {
            &&& command matches XCommand::GetKeyboardMapping { first_keycode, count }
            &&& first_keycode == setup.min_keycode
            &&& count == setup.max_keycode - setup.min_keycode
        },
        step is ModifierMapping ==> command is GetModifierMapping,
        step matches SetupStep::InternAtom(name) ==> command == (XCommand::InternAtom { name }),
{
}

} // verus!
