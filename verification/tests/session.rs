use screenstub::config::{ConfigInputDevice, ConfigInputDeviceKind, ConfigInputEvent};
use screenstub::filter::EventFlags;
use screenstub::input::{EventKind, InputEvent};
use screenstub::x::bounds::{Bounds, Rect};
use screenstub::x::context::{Atoms, XAction, XContext, XError, XInfo, XState};
use screenstub::x::events::{Fp3232, XInputEventData};
use screenstub::x::protocol::{
    AtomName, ClientMessageData, DeviceClass, DeviceMask, DeviceType, GrabStatus, InputDeviceEvent,
    KeyboardMapping, ModifierMapping, MotionNotifyEvent, PropMode, PropertyData, RawMotionEvent,
    Screen, Setup, Valuator, ValuatorMode, Visibility, XCommand, XI2DeviceEvent, XIDeviceInfo,
    XIEventMask, XReply, XServerEvent, WINDOW_EVENTS,
};
use screenstub::x::setup::{setup_command, setup_steps, Extensions};
use screenstub::x::xinput::{
    GetExtensionVersionReply, VersionStep, XI2MotionEvent, XIQueryVersionReply, XInput,
    XInputVersion,
};
use screenstub::x::{XEvent, XRequest};

fn screen() -> Screen {
    Screen {
        root: 0x100,
        width_in_pixels: 1920,
        height_in_pixels: 1080,
        root_visual: 0x21,
        black_pixel: 5,
    }
}

fn setup() -> Setup {
    Setup { roots: vec![screen()], min_keycode: 8, max_keycode: 255 }
}

fn atoms() -> Atoms {
    Atoms {
        wm_state: 201,
        wm_protocols: 202,
        wm_delete_window: 203,
        net_wm_state: 204,
        net_wm_state_fullscreen: 205,
    }
}

fn all_extensions() -> Extensions {
    Extensions { input: Some(131), xkb: Some(135), test: Some(132), dpms: Some(140) }
}

fn no_extensions() -> Extensions {
    Extensions { input: None, xkb: None, test: None, dpms: None }
}

fn keys() -> KeyboardMapping {
    KeyboardMapping { keysyms_per_keycode: 2, keysyms: vec![0xff1b, 0, 0x31, 0x21, 0, 0x40] }
}

fn context(extensions: Extensions) -> XContext {
    let info = XInfo { window: 0x777, extensions, setup: setup(), screen: 0, atoms: atoms() };
    let mut context = XContext::new(info, keys(), ModifierMapping { keycodes: vec![] });
    context.event_queue.set_bounds(Rect {
        x: Bounds::between(0, 1000),
        y: Bounds::between(0, 1000),
    });
    context
}

fn sent(context: &mut XContext) -> XCommand {
    match context.next() {
        XAction::Send(command) => command,
        action => panic!("unexpected {:?}", action),
    }
}

fn mouse_device(deviceid: u16, name: &str) -> XIDeviceInfo {
    XIDeviceInfo {
        deviceid,
        type_: DeviceType::SlavePointer,
        name: name.as_bytes().to_vec(),
        classes: vec![
            DeviceClass::Other,
            DeviceClass::Valuator(Valuator { number: 0, mode: ValuatorMode::Relative }),
            DeviceClass::Valuator(Valuator { number: 1, mode: ValuatorMode::Relative }),
            DeviceClass::Valuator(Valuator { number: 2, mode: ValuatorMode::Relative }),
            DeviceClass::Valuator(Valuator { number: 5, mode: ValuatorMode::Absolute }),
            DeviceClass::Valuator(Valuator { number: 6, mode: ValuatorMode::Relative }),
        ],
    }
}

fn with_devices(context: &mut XContext, devices: Vec<XIDeviceInfo>) {
    assert_eq!(context.process_event(&XServerEvent::DevicePresenceNotify), Ok(()));
    assert_eq!(sent(context), XCommand::XIQueryDevice { major_opcode: 131, deviceid: 0 });
    assert_eq!(context.reply(XReply::Devices(devices)), Ok(()));
}

fn queued(context: &mut XContext) -> Vec<XEvent> {
    let mut events = Vec::new();
    while let Some(e) = context.event_queue.pop() {
        events.push(e);
    }
    events
}

#[test]
fn the_session_starts_step_by_step() {
    let steps = setup_steps(&all_extensions());
    let commands: Vec<_> =
        steps.into_iter().map(|s| setup_command(s, &setup(), &screen(), 0x777)).collect();
    assert_eq!(
        commands,
        vec![
            XCommand::XIQueryVersion { major_opcode: 131, major_version: 2, minor_version: 3 },
            XCommand::XkbUseExtension { major_opcode: 135, wanted_major: 1, wanted_minor: 0 },
            XCommand::CreateWindow {
                wid: 0x777,
                parent: 0x100,
                width: 1920,
                height: 1080,
                visual: 0x21,
                background_pixel: 5,
                event_mask: WINDOW_EVENTS,
            },
            XCommand::XISelectEvents {
                major_opcode: 131,
                window: 0x777,
                masks: vec![DeviceMask { deviceid: 0, mask: XIEventMask::DeviceChanged }],
            },
            XCommand::XkbPerClientFlags {
                major_opcode: 135,
                device_spec: 0x100,
                change: 1,
                value: 1,
            },
            XCommand::GetKeyboardMapping { first_keycode: 8, count: 247 },
            XCommand::GetModifierMapping,
            XCommand::InternAtom { name: AtomName::WmState },
            XCommand::InternAtom { name: AtomName::WmProtocols },
            XCommand::InternAtom { name: AtomName::WmDeleteWindow },
            XCommand::InternAtom { name: AtomName::NetWmState },
            XCommand::InternAtom { name: AtomName::NetWmStateFullscreen },
        ]
    );
    assert_eq!(setup_steps(&no_extensions()).len(), 8);
    assert_eq!(WINDOW_EVENTS, 0x63204f);
    assert_eq!(AtomName::NetWmStateFullscreen.name(), "_NET_WM_STATE_FULLSCREEN");
}

#[test]
fn the_window_gets_its_names() {
    let context = context(no_extensions());
    assert_eq!(
        context.set_wm_name("screenstub"),
        XCommand::ChangeProperty {
            mode: PropMode::Replace,
            window: 0x777,
            property: 39,
            type_: 31,
            data: PropertyData::Data8(b"screenstub".to_vec()),
        }
    );
    assert_eq!(
        context.set_wm_class("auto", "sc\u{e9}"),
        XCommand::ChangeProperty {
            mode: PropMode::Replace,
            window: 0x777,
            property: 67,
            type_: 31,
            data: PropertyData::Data8(b"auto\0sc\xc3\xa9".to_vec()),
        }
    );
    assert_eq!(*context.screen(), screen());
}

#[test]
fn the_window_is_mapped() {
    let mut context = context(all_extensions());
    context.map_window();
    assert_eq!(
        sent(&mut context),
        XCommand::ChangeProperty {
            mode: PropMode::Replace,
            window: 0x777,
            property: 202,
            type_: 4,
            data: PropertyData::Data32(vec![203]),
        }
    );
    context.reply(XReply::Done).unwrap();
    assert_eq!(
        sent(&mut context),
        XCommand::ChangeProperty {
            mode: PropMode::Append,
            window: 0x777,
            property: 204,
            type_: 4,
            data: PropertyData::Data32(vec![205]),
        }
    );
    context.reply(XReply::Done).unwrap();
    assert_eq!(sent(&mut context), XCommand::XIQueryDevice { major_opcode: 131, deviceid: 0 });
    context.reply(XReply::Devices(vec![])).unwrap();
    assert_eq!(sent(&mut context), XCommand::MapWindow { window: 0x777 });
    context.reply(XReply::Done).unwrap();
    assert_eq!(context.next(), XAction::Idle);
}

#[test]
fn a_session_stops() {
    let mut context = context(no_extensions());
    context.state.running = true;
    context.process_request(XRequest::Quit);
    assert_eq!(context.state, XState { running: false, grabbed: false });
    assert_eq!(context.next(), XAction::Idle);
}

#[test]
fn unsticking_the_host_releases_its_keys() {
    let mut context = context(all_extensions());
    context.process_request(XRequest::UnstickHost);
    assert_eq!(sent(&mut context), XCommand::QueryKeymap);
    let mut keymap = [0u8; 32];
    keymap[0] = 0b1000_0001;
    keymap[31] = 0x80;
    context.reply(XReply::Keymap(keymap)).unwrap();
    for detail in [0, 7, 255] {
        assert_eq!(
            sent(&mut context),
            XCommand::FakeInput {
                major_opcode: 132,
                type_: 3,
                detail,
                time: 0,
                root: 0,
                deviceid: 0,
            }
        );
        context.reply(XReply::Done).unwrap();
    }
    assert_eq!(context.next(), XAction::Idle);
}

#[test]
fn the_host_is_not_unstuck_without_the_extension() {
    let mut context = context(no_extensions());
    context.process_request(XRequest::UnstickHost);
    assert_eq!(context.next(), XAction::Idle);
}

#[test]
fn a_grab_is_made_and_given_up() {
    let mut context = context(all_extensions());
    with_devices(&mut context, vec![mouse_device(9, "a"), mouse_device(4, "b")]);
    context.process_request(XRequest::Grab {
        xcore: true,
        confine: true,
        motion: true,
        devices: vec![],
    });
    assert_eq!(
        sent(&mut context),
        XCommand::GrabKeyboard { owner_events: false, grab_window: 0x777, time: 0 }
    );
    context.reply(XReply::Grab(GrabStatus::Success)).unwrap();
    assert_eq!(
        sent(&mut context),
        XCommand::GrabPointer {
            owner_events: false,
            grab_window: 0x777,
            event_mask: 0x204c,
            confine_to: 0x777,
            cursor: 0,
            time: 0,
        }
    );
    context.reply(XReply::Grab(GrabStatus::Success)).unwrap();
    assert_eq!(context.next(), XAction::Continue);
    assert_eq!(context.grab_devices.len(), 1);
    assert!(context.grab_devices[0].is_any());
    assert_eq!(
        sent(&mut context),
        XCommand::XISelectEvents {
            major_opcode: 131,
            window: 0x100,
            masks: vec![DeviceMask { deviceid: 0, mask: XIEventMask::RawMotion }],
        }
    );
    assert!(!context.state.grabbed);
    context.reply(XReply::Done).unwrap();
    assert!(context.state.grabbed);

    // new devices are grabbed too
    context.process_event(&XServerEvent::DevicePresenceNotify).unwrap();
    sent(&mut context);
    context.reply(XReply::Devices(vec![])).unwrap();
    assert!(matches!(sent(&mut context), XCommand::XISelectEvents { .. }));
    context.reply(XReply::Done).unwrap();

    context.process_request(XRequest::Ungrab);
    assert_eq!(sent(&mut context), XCommand::UngrabKeyboard { time: 0 });
    context.reply(XReply::Done).unwrap();
    assert_eq!(sent(&mut context), XCommand::UngrabPointer { time: 0 });
    context.reply(XReply::Done).unwrap();
    assert_eq!(
        sent(&mut context),
        XCommand::XISelectEvents {
            major_opcode: 131,
            window: 0x100,
            masks: vec![DeviceMask { deviceid: 0, mask: XIEventMask::Nothing }],
        }
    );
    context.reply(XReply::Done).unwrap();
    assert!(!context.state.grabbed);
    assert_eq!(context.next(), XAction::Idle);
}

#[test]
fn a_refused_grab_is_an_error() {
    let mut context = context(all_extensions());
    context.process_request(XRequest::Grab {
        xcore: true,
        confine: false,
        motion: false,
        devices: vec![],
    });
    sent(&mut context);
    assert_eq!(
        context.reply(XReply::Grab(GrabStatus::AlreadyGrabbed)),
        Err(XError::GrabFailed(GrabStatus::AlreadyGrabbed))
    );
    assert_eq!(
        XError::GrabFailed(GrabStatus::NotViewable).message(),
        "X failed to grab with status NotViewable"
    );
    assert!(context.grab_devices.is_empty());
}

#[test]
fn grabs_without_the_extension_are_done_at_once() {
    let mut context = context(no_extensions());
    context.process_request(XRequest::Grab {
        xcore: false,
        confine: false,
        motion: true,
        devices: vec![ConfigInputDevice { id: Some(3), ..Default::default() }],
    });
    assert_eq!(context.next(), XAction::Continue);
    assert_eq!(context.next(), XAction::Continue);
    assert!(context.state.grabbed);
    assert_eq!(context.next(), XAction::Idle);
    context.process_event(&XServerEvent::DevicePresenceNotify).unwrap();
    assert_eq!(context.next(), XAction::Continue);
    assert_eq!(context.next(), XAction::Continue);
    assert_eq!(context.next(), XAction::Idle);
}

#[test]
fn devices_to_grab_are_found() {
    let mut context = context(all_extensions());
    let mut keyboard = mouse_device(7, "kbd");
    keyboard.type_ = DeviceType::MasterKeyboard;
    let mut replaced = mouse_device(9, "new");
    replaced.classes = vec![];
    with_devices(
        &mut context,
        vec![mouse_device(9, "old"), mouse_device(12, "mouse"), keyboard, mouse_device(4, "mouse"), replaced],
    );
    assert_eq!(context.devices.keys().copied().collect::<Vec<_>>(), vec![4, 7, 9, 12]);
    assert_eq!(context.devices[&9].name, b"new");
    let named = |name: &str| ConfigInputDevice { name: name.into(), ..Default::default() };
    context.process_request(XRequest::Grab {
        xcore: false,
        confine: false,
        motion: true,
        devices: vec![
            ConfigInputDevice { id: Some(77), ..Default::default() },
            named("mouse"),
            named("old"),
            named("new"),
            ConfigInputDevice { master: true, ..Default::default() },
            ConfigInputDevice {
                kind: Some(ConfigInputDeviceKind::Keyboard),
                master: true,
                ..Default::default()
            },
            ConfigInputDevice {
                kind: Some(ConfigInputDeviceKind::Keyboard),
                ..Default::default()
            },
            ConfigInputDevice {
                kind: Some(ConfigInputDeviceKind::Tablet),
                ..Default::default()
            },
        ],
    });
    assert_eq!(context.next(), XAction::Continue);
    let mask = |deviceid| DeviceMask { deviceid, mask: XIEventMask::RawMotion };
    assert_eq!(
        sent(&mut context),
        XCommand::XISelectEvents {
            major_opcode: 131,
            window: 0x100,
            masks: vec![mask(77), mask(4), mask(9), mask(1), mask(7), mask(4)],
        }
    );
}

#[test]
fn visibility_depends_on_the_screen() {
    let mut dark = context(all_extensions());
    dark.process_event(&XServerEvent::VisibilityNotify { state: Visibility::Unobscured }).unwrap();
    assert_eq!(queued(&mut dark), vec![]);
    assert_eq!(sent(&mut dark), XCommand::DpmsInfo { major_opcode: 140 });
    dark.reply(XReply::PowerOn(false)).unwrap();
    assert_eq!(queued(&mut dark), vec![XEvent::Visible(false)]);
    dark.process_event(&XServerEvent::VisibilityNotify { state: Visibility::PartiallyObscured })
        .unwrap();
    sent(&mut dark);
    dark.reply(XReply::PowerOn(true)).unwrap();
    assert_eq!(queued(&mut dark), vec![XEvent::Visible(true)]);

    let mut plain = context(no_extensions());
    for (state, visible) in [
        (Visibility::FullyObscured, false),
        (Visibility::Unobscured, true),
        (Visibility::PartiallyObscured, true),
    ] {
        plain.process_event(&XServerEvent::VisibilityNotify { state }).unwrap();
        assert_eq!(queued(&mut plain), vec![XEvent::Visible(visible)]);
    }
}

#[test]
fn messages_to_the_window() {
    let mut context = context(no_extensions());
    let message = |first| XServerEvent::ClientMessage { data: ClientMessageData::Data32 { first } };
    context.process_event(&message(203)).unwrap();
    assert_eq!(queued(&mut context), vec![XEvent::Close]);
    context.process_event(&message(99)).unwrap();
    assert_eq!(queued(&mut context), vec![]);
    assert_eq!(sent(&mut context), XCommand::GetAtomName { atom: 99 });
    assert!(!context.accepts_event(&XServerEvent::ClientMessage { data: ClientMessageData::Data8 }));
    assert!(context.accepts_event(&message(1)));
}

#[test]
fn the_window_managers_state_is_read() {
    let mut context = context(no_extensions());
    for (value, expected) in [
        (Some(0), vec![XEvent::Visible(false)]),
        (Some(3), vec![XEvent::Visible(false)]),
        (Some(1), vec![]),
        (None, vec![]),
    ] {
        context.process_event(&XServerEvent::PropertyNotify { window: 5, atom: 201 }).unwrap();
        assert_eq!(
            sent(&mut context),
            XCommand::GetProperty {
                delete: false,
                window: 5,
                property: 201,
                type_: 0,
                long_offset: 0,
                long_length: 1,
            }
        );
        context.reply(XReply::Property(value)).unwrap();
        assert_eq!(queued(&mut context), expected);
    }
    context.process_event(&XServerEvent::PropertyNotify { window: 5, atom: 77 }).unwrap();
    assert_eq!(sent(&mut context), XCommand::GetAtomName { atom: 77 });
}

#[test]
fn mappings_are_updated() {
    let mut context = context(no_extensions());
    context.process_event(&XServerEvent::MappingNotify).unwrap();
    assert_eq!(sent(&mut context), XCommand::GetKeyboardMapping { first_keycode: 8, count: 247 });
    context
        .reply(XReply::KeyboardMapping(KeyboardMapping {
            keysyms_per_keycode: 1,
            keysyms: vec![11, 12],
        }))
        .unwrap();
    assert_eq!(sent(&mut context), XCommand::GetModifierMapping);
    context.reply(XReply::ModifierMapping(ModifierMapping { keycodes: vec![1] })).unwrap();
    assert_eq!(context.keysym(1), Some(12));
    assert_eq!(context.mods.keycodes, vec![1]);
}

#[test]
fn input_of_the_window_is_queued() {
    let mut context = context(no_extensions());
    context.process_event(&XServerEvent::ConfigureNotify { width: 100, height: 200 }).unwrap();
    context
        .process_event(&XServerEvent::MotionNotify(MotionNotifyEvent {
            time: 1,
            event_x: 50,
            event_y: 50,
        }))
        .unwrap();
    let event = |kind, code, value| XEvent::Input(InputEvent::new(kind, code, value));
    let report = XEvent::Input(InputEvent::report());
    assert_eq!(
        queued(&mut context),
        vec![event(EventKind::Absolute, 0, 500), event(EventKind::Absolute, 1, 250), report]
    );
    let device = |detail| InputDeviceEvent { time: 1, detail, state: 0 };
    context.process_event(&XServerEvent::KeyPress(device(38))).unwrap();
    assert_eq!(queued(&mut context), vec![event(EventKind::Key, 30, 1), report]);
    context.process_event(&XServerEvent::KeyRelease(device(38))).unwrap();
    assert_eq!(queued(&mut context), vec![event(EventKind::Key, 30, 0), report]);
    assert!(!context.accepts_event(&XServerEvent::KeyRelease(device(7))));
    context.process_event(&XServerEvent::ButtonPress(device(3))).unwrap();
    assert_eq!(queued(&mut context), vec![event(EventKind::Key, 0x111, 1), report]);
    context.process_event(&XServerEvent::ButtonRelease(device(3))).unwrap();
    assert_eq!(queued(&mut context), vec![event(EventKind::Key, 0x111, 0), report]);
    context.process_event(&XServerEvent::FocusOut).unwrap();
    context.process_event(&XServerEvent::FocusIn).unwrap();
    context.process_event(&XServerEvent::Other).unwrap();
    assert_eq!(queued(&mut context), vec![XEvent::Focus(false), XEvent::Focus(true)]);
}

#[test]
fn a_grabbed_pointer_is_ignored() {
    let mut context = context(no_extensions());
    context.event_queue.set_size(100, 100);
    context.state.grabbed = true;
    context
        .process_event(&XServerEvent::MotionNotify(MotionNotifyEvent {
            time: 1,
            event_x: 50,
            event_y: 50,
        }))
        .unwrap();
    assert_eq!(queued(&mut context), vec![]);
}

fn whole(n: i32) -> Fp3232 {
    Fp3232 { integral: n, frac: 0 }
}

#[test]
fn raw_motion_is_translated() {
    let mut context = context(all_extensions());
    with_devices(&mut context, vec![mouse_device(9, "m")]);
    let raw = |mask: Vec<u32>, values: Vec<Fp3232>| {
        XServerEvent::RawMotion(RawMotionEvent {
            time: 1,
            deviceid: 9,
            valuator_mask: mask,
            axisvalues: values.clone(),
            axisvalues_raw: values,
        })
    };
    // the axes 0, 2, 5 and 6; the last two are not reported
    let event = raw(vec![0b110_0101], vec![whole(2), whole(-3), whole(4), whole(5)]);
    assert!(context.accepts_event(&event));
    context.process_event(&event).unwrap();
    let wheel = XEvent::Input(InputEvent::new(EventKind::Relative, 8, -12));
    let report = XEvent::Input(InputEvent::report());
    assert_eq!(queued(&mut context), vec![wheel, report]);
    context.event_queue.commit();
    let x = XEvent::Input(InputEvent::new(EventKind::Relative, 0, 8));
    assert_eq!(queued(&mut context), vec![x, report]);

    // a value short, or a mask that cannot be read
    assert!(!context.accepts_event(&raw(vec![0b11], vec![whole(1)])));
    assert!(!context.accepts_event(&raw(vec![0x8000_0000], vec![whole(1)])));
    assert!(context.accepts_event(&raw(vec![], vec![])));
}

#[test]
fn raw_motion_of_an_unknown_device_is_an_error() {
    let mut context = context(all_extensions());
    let event = XServerEvent::RawMotion(RawMotionEvent {
        time: 1,
        deviceid: 3,
        valuator_mask: vec![0x8000_0000],
        axisvalues: vec![],
        axisvalues_raw: vec![],
    });
    assert!(context.accepts_event(&event));
    assert_eq!(context.process_event(&event), Err(XError::UnknownDevice(3)));
    assert_eq!(XError::UnknownDevice(10).message(), "XInput device unknown for event: 10");
}

#[test]
fn small_fractions_round_towards_zero() {
    let mut context = context(all_extensions());
    with_devices(&mut context, vec![mouse_device(9, "m")]);
    let raw = |value| {
        XServerEvent::RawMotion(RawMotionEvent {
            time: 1,
            deviceid: 9,
            valuator_mask: vec![0b100],
            axisvalues: vec![value],
            axisvalues_raw: vec![value],
        })
    };
    context.process_event(&raw(Fp3232 { integral: -1, frac: 0xf000_0000 })).unwrap();
    let value = |v| XEvent::Input(InputEvent::new(EventKind::Relative, 8, v));
    assert_eq!(queued(&mut context)[0], value(0));
    context.process_event(&raw(Fp3232 { integral: 1, frac: 0x4000_0000 })).unwrap();
    assert_eq!(queued(&mut context)[0], value(5));
    context.process_event(&raw(Fp3232 { integral: -2, frac: 0x2000_0000 })).unwrap();
    assert_eq!(queued(&mut context)[0], value(-7));
}

#[test]
fn versions_of_the_input_extension() {
    assert_eq!(XInputVersion::new(2, 3).value(), 0x0002_0003);
    assert_eq!(XInputVersion::new(0xffff, 0xffff).value(), 0xffff_ffff);
    assert_eq!(
        XInputVersion::query(Some(XIQueryVersionReply { major_version: 2, minor_version: 2 })),
        VersionStep::Known(XInputVersion::new(2, 2))
    );
    assert_eq!(XInputVersion::query(None), VersionStep::AskExtension);
    let reply = |present| GetExtensionVersionReply { server_major: 1, server_minor: 5, present };
    assert_eq!(XInputVersion::query_extension(reply(true)), Some(XInputVersion::new(1, 5)));
    assert_eq!(XInputVersion::query_extension(reply(false)), None);
    assert!(XInputVersion::new(2, 1) < XInputVersion::new(2, 2));
}

#[test]
fn events_to_ask_for() {
    let all = EventFlags::from_classes(&vec![
        ConfigInputEvent::Key,
        ConfigInputEvent::Button,
        ConfigInputEvent::Relative,
        ConfigInputEvent::Absolute,
    ]);
    assert_eq!(
        XInputVersion::new(2, 1).events_mask(true, all),
        vec![
            XIEventMask::RawKeyPress,
            XIEventMask::RawKeyRelease,
            XIEventMask::RawButtonPress,
            XIEventMask::RawButtonRelease,
            XIEventMask::Motion,
            XIEventMask::RawMotion,
        ]
    );
    let plain = vec![
        XIEventMask::KeyPress,
        XIEventMask::KeyRelease,
        XIEventMask::ButtonPress,
        XIEventMask::ButtonRelease,
        XIEventMask::Motion,
    ];
    assert_eq!(XInputVersion::new(2, 0).events_mask(true, all), plain);
    assert_eq!(XInputVersion::new(2, 3).events_mask(false, all), plain);
    let relative = EventFlags::only(ConfigInputEvent::Relative);
    assert_eq!(XInputVersion::new(3, 0).events_mask(true, relative), vec![XIEventMask::RawMotion]);
    assert_eq!(XInputVersion::new(3, 0).events_mask(false, relative), vec![XIEventMask::Motion]);
    assert_eq!(XInputVersion::new(3, 0).events_mask(true, EventFlags::empty()), vec![]);
}

#[test]
fn core_events_of_the_input_extension() {
    let input = XInput::new(8, keys(), ModifierMapping { keycodes: vec![] });
    let event = InputDeviceEvent { time: 9, detail: 9, state: 4 };
    assert_eq!(
        input.process_event_keypress(&event).data,
        XInputEventData::Key { pressed: true, keycode: 1, keysym: Some(0x31), state: 4 }
    );
    let unnamed = InputDeviceEvent { time: 9, detail: 10, state: 4 };
    assert_eq!(
        input.process_event_keyrelease(&unnamed).data,
        XInputEventData::Key { pressed: false, keycode: 2, keysym: None, state: 4 }
    );
    let beyond = InputDeviceEvent { time: 9, detail: 255, state: 4 };
    assert_eq!(
        input.process_event_keypress(&beyond).data,
        XInputEventData::Key { pressed: true, keycode: 247, keysym: None, state: 4 }
    );
    assert_eq!(
        input.process_event_buttonpress(&event).data,
        XInputEventData::Button { pressed: true, button: 9, state: 4 }
    );
    assert_eq!(
        input.process_event_buttonrelease(&event).data,
        XInputEventData::Button { pressed: false, button: 9, state: 4 }
    );
    let motion = MotionNotifyEvent { time: 3, event_x: -1, event_y: 2 };
    let e = input.process_event_motion(&motion);
    assert_eq!((e.time, e.data), (3, XInputEventData::Mouse { x: -1, y: 2 }));
    let xi2 = XI2DeviceEvent { time: 9, detail: 0x109 };
    assert_eq!(
        input.process_event_xi2_keypress(&xi2).data,
        XInputEventData::Key { pressed: true, keycode: 1, keysym: Some(0x31), state: 0 }
    );
    assert_eq!(
        input.process_event_xi2_keyrelease(&xi2).data,
        XInputEventData::Key { pressed: false, keycode: 1, keysym: Some(0x31), state: 0 }
    );
    assert_eq!(
        input.process_event_xi2_buttonpress(&xi2).data,
        XInputEventData::Button { pressed: true, button: 9, state: 0 }
    );
    assert_eq!(
        input.process_event_xi2_buttonrelease(&xi2).data,
        XInputEventData::Button { pressed: false, button: 9, state: 0 }
    );
}

#[test]
fn motion_of_the_input_extension() {
    let mut input = XInput::new(8, keys(), ModifierMapping { keycodes: vec![] });
    let key = |device: u32, number: u32| device * 0x10000 + number;
    input.valuators.insert(key(9, 0), Valuator { number: 0, mode: ValuatorMode::Relative });
    input.valuators.insert(key(9, 3), Valuator { number: 3, mode: ValuatorMode::Relative });
    input.valuators.insert(key(9, 7), Valuator { number: 7, mode: ValuatorMode::Absolute });
    let relative = EventFlags::only(ConfigInputEvent::Relative);
    let values = vec![(0, whole(1)), (1, whole(2)), (3, whole(3)), (7, whole(4))];
    let raw = input.process_event_xi2_motion_raw(5, 9, &values, relative);
    let data: Vec<_> = raw.iter().map(|e| e.data).collect();
    assert_eq!(
        data,
        vec![
            XInputEventData::MouseRelative { axis: 0, value: whole(1) },
            XInputEventData::MouseRelative { axis: 6, value: whole(3) },
        ]
    );
    let event = XI2MotionEvent {
        time: 5,
        deviceid: 9,
        axisvalues: vec![(0, whole(1))],
        event_x: 7,
        event_y: 8,
    };
    let absolute = EventFlags::only(ConfigInputEvent::Absolute);
    let data: Vec<_> =
        input.process_event_xi2_motion(&event, absolute).iter().map(|e| e.data).collect();
    assert_eq!(data, vec![XInputEventData::Mouse { x: 7, y: 8 }]);
    let data: Vec<_> =
        input.process_event_xi2_motion(&event, relative).iter().map(|e| e.data).collect();
    assert_eq!(data, vec![XInputEventData::MouseRelative { axis: 0, value: whole(1) }]);
}
