use screenstub::config::{
    ConfigEvent, ConfigGrab, ConfigGrabMode, ConfigHotkey, ConfigInputEvent, ConfigMonitor,
    ConfigQemuDriver, ConfigQemuRouting, ConfigScreen, ConfigSource,
};
use screenstub::dispatch::{
    axis_is_absolute, axis_is_relative, configure_device, convert_hotkey, destination_is_host,
    device_identity, dispatch_x_event, event_targets, grab_route_id, main_loop_step,
    map_event_kind, route_id, select_screen, source_line, LoopEvent, LoopStep, NoScreen, Targets,
    XDispatch,
};
use screenstub::event::{ProcessedXEvent, UserEvent};
use screenstub::filter::InputEventFilter;
use screenstub::input::{EventKind, InputEvent};
use screenstub::process::{
    Action, EvdevGrab, InputDevice, Plan, Process, ProcessError, ShutdownMode,
};
use screenstub::uinput::{Builder, InputId};
use screenstub::x::XRequest;

fn process(routing: ConfigQemuRouting, exit_events: Vec<ConfigEvent>) -> Process {
    Process::new(
        routing,
        ConfigQemuDriver::Ps2,
        ConfigQemuDriver::Usb,
        ConfigQemuDriver::Virtio,
        exit_events,
    )
}

fn single(process: &mut Process, event: ConfigEvent) -> Plan {
    let mut plans = process.process_user_event(&event, None);
    assert_eq!(plans.len(), 1);
    plans.pop().unwrap()
}

fn mouse() -> Action {
    Action::AddDevice { device: InputDevice::Relative, driver: ConfigQemuDriver::Usb }
}

fn tablet() -> Action {
    Action::AddDevice { device: InputDevice::Absolute, driver: ConfigQemuDriver::Virtio }
}

fn evdev_grab(exclusive: bool, new_device_name: Option<String>) -> ConfigGrab {
    ConfigGrab::Evdev {
        exclusive,
        new_device_name,
        xcore_ignore: vec![ConfigInputEvent::Key],
        evdev_ignore: vec![ConfigInputEvent::Led],
        devices: vec!["/dev/input/event3".into()],
    }
}

#[test]
fn plain_events_lead_to_one_action() {
    let mut p = process(ConfigQemuRouting::Qmp, vec![]);
    let args = vec!["ls".to_string(), "-l".to_string()];
    for (event, action) in [
        (ConfigEvent::Exec(args.clone()), Action::Exec(args.clone())),
        (ConfigEvent::GuestExec(args.clone()), Action::GuestExec(args.clone())),
        (ConfigEvent::GuestWait, Action::GuestWait),
        (ConfigEvent::ShowHost, Action::ShowHost),
        (ConfigEvent::ShowGuest, Action::ShowGuest),
        (ConfigEvent::UnstickGuest, Action::UnstickGuest),
        (ConfigEvent::UnstickHost, Action::XUnstickHost),
        (ConfigEvent::Shutdown, Action::GuestShutdown(ShutdownMode::Powerdown)),
        (ConfigEvent::Reboot, Action::GuestShutdown(ShutdownMode::Reboot)),
    ] {
        assert_eq!(single(&mut p, event), Ok(vec![action]));
    }
}

#[test]
fn showing_is_toggled() {
    let mut p = process(ConfigQemuRouting::Qmp, vec![]);
    for (showing, action) in [
        (Some(true), Action::ShowHost),
        (Some(false), Action::ShowGuest),
        (None, Action::ShowGuest),
    ] {
        assert_eq!(p.process_user_event(&ConfigEvent::ToggleShow, showing), vec![Ok(vec![action])]);
    }
}

#[test]
fn leaving_runs_the_exit_events() {
    let mut p = process(
        ConfigQemuRouting::Qmp,
        vec![
            ConfigEvent::Grab(ConfigGrab::XDevice { devices: vec![] }),
            ConfigEvent::Exit,
            ConfigEvent::ShowHost,
        ],
    );
    assert_eq!(
        p.process_user_event(&ConfigEvent::Exit, Some(true)),
        vec![
            Err(ProcessError::GrabUnimplemented(ConfigGrabMode::XDevice)),
            Ok(vec![Action::ShowHost]),
            Ok(vec![Action::XQuit]),
        ]
    );
    assert_eq!(p.exit_events.len(), 3);
    let mut bare = process(ConfigQemuRouting::Qmp, vec![]);
    assert_eq!(bare.process_user_event(&ConfigEvent::Exit, None), vec![Ok(vec![Action::XQuit])]);
}

#[test]
fn a_grab_of_motion_gives_the_guest_a_mouse() {
    let mut p = process(ConfigQemuRouting::Qmp, vec![]);
    assert!(!p.is_mouse());
    assert_eq!(p.grab(&ConfigGrab::XInput), Ok(vec![Action::XGrab { motion: true }, mouse()]));
    assert!(p.is_mouse());
    // only the first one
    assert_eq!(p.grab(&ConfigGrab::XInput), Ok(vec![Action::XGrab { motion: true }]));
    assert_eq!(p.ungrab(ConfigGrabMode::XInput), Ok(vec![tablet(), Action::XUngrab]));
    assert!(!p.is_mouse());
    assert_eq!(p.ungrab(ConfigGrabMode::XInput), Ok(vec![Action::XUngrab]));
}

#[test]
fn a_core_grab_needs_no_mouse() {
    let mut p = process(ConfigQemuRouting::Qmp, vec![]);
    assert_eq!(p.grab(&ConfigGrab::XCore), Ok(vec![Action::XGrab { motion: false }]));
    assert!(!p.is_mouse());
    assert_eq!(p.ungrab(ConfigGrabMode::XCore), Ok(vec![Action::XUngrab]));
}

#[test]
fn toggling_a_grab_twice_undoes_it() {
    let mut p = process(ConfigQemuRouting::Qmp, vec![]);
    let toggle = || ConfigEvent::ToggleGrab(ConfigGrab::XInput);
    assert_eq!(single(&mut p, toggle()), Ok(vec![Action::XGrab { motion: true }, mouse()]));
    assert_eq!(single(&mut p, toggle()), Ok(vec![tablet(), Action::XUngrab]));
    assert_eq!(single(&mut p, toggle()), Ok(vec![Action::XGrab { motion: true }, mouse()]));
    assert_eq!(
        single(&mut p, ConfigEvent::Ungrab(ConfigGrabMode::XInput)),
        Ok(vec![tablet(), Action::XUngrab])
    );
}

#[test]
fn devices_of_the_window_are_not_grabbed() {
    let mut p = process(ConfigQemuRouting::Qmp, vec![]);
    let grab = p.grab(&ConfigGrab::XDevice { devices: vec![] }).unwrap_err();
    assert_eq!(grab, ProcessError::GrabUnimplemented(ConfigGrabMode::XDevice));
    assert_eq!(grab.message(), "grab XDevice unimplemented");
    let ungrab = p.ungrab(ConfigGrabMode::XDevice).unwrap_err();
    assert_eq!(ungrab, ProcessError::UngrabUnimplemented(ConfigGrabMode::XDevice));
    assert_eq!(ungrab.message(), "ungrab XDevice unimplemented");
    assert_eq!(ConfigGrabMode::Evdev.name(), "Evdev");
    assert_eq!(ConfigGrabMode::XCore.name(), "XCore");
    assert_eq!(ConfigGrabMode::XInput.name(), "XInput");
}

#[test]
fn kernel_devices_are_grabbed() {
    let mut p = process(ConfigQemuRouting::Qmp, vec![]);
    let plan = p.grab(&evdev_grab(true, None)).unwrap();
    let grab = EvdevGrab {
        devices: vec!["/dev/input/event3".into()],
        evdev_ignore: vec![ConfigInputEvent::Led],
        xcore_ignore: vec![ConfigInputEvent::Key],
        new_device_name: None,
        exclusive: false,
        prev_is_mouse: false,
    };
    assert_eq!(plan, vec![Action::OpenEvdev(grab)]);
    let grab = match plan.into_iter().next() {
        Some(Action::OpenEvdev(grab)) => grab,
        _ => panic!("no grab"),
    };

    let key = InputEvent::new(EventKind::Key, 30, 1);
    assert!(p.x_filter().filter_event(&key));
    assert_eq!(p.evdev_grabbed(&grab, 7, &vec![(false, false), (false, true)]), vec![mouse()]);
    assert!(p.is_mouse());
    assert!(!p.x_filter().filter_event(&key));

    // another one in its place
    assert_eq!(p.evdev_grabbed(&grab, 8, &vec![(false, false)]), vec![Action::Abort(7)]);
    assert!(!p.is_mouse());
    assert_eq!(p.evdev_grabbed(&grab, 9, &vec![(true, false)]), vec![Action::Abort(8), mouse()]);

    assert_eq!(p.ungrab(ConfigGrabMode::Evdev), Ok(vec![Action::Abort(9), tablet()]));
    assert!(p.x_filter().filter_event(&key));
    assert!(!p.is_mouse());
    assert_eq!(p.ungrab(ConfigGrabMode::Evdev), Ok(vec![]));
}

#[test]
fn exclusive_grabs_need_a_device_of_their_own() {
    let mut p = process(ConfigQemuRouting::Qmp, vec![]);
    p.grab(&ConfigGrab::XInput).unwrap();
    let plan = p.grab(&evdev_grab(true, Some("pad".into()))).unwrap();
    match &plan[..] {
        [Action::OpenEvdev(grab)] => {
            assert!(grab.exclusive);
            assert_eq!(grab.new_device_name.as_deref(), Some("pad"));
            assert!(grab.prev_is_mouse);
        },
        _ => panic!("no grab"),
    }
    let plan = p.grab(&evdev_grab(false, Some("pad".into()))).unwrap();
    assert!(matches!(&plan[..], [Action::OpenEvdev(grab)] if !grab.exclusive));
}

#[test]
fn a_mouse_stays_while_another_grab_has_one() {
    let mut p = process(ConfigQemuRouting::Qmp, vec![]);
    p.grab(&ConfigGrab::XInput).unwrap();
    let grab = EvdevGrab {
        devices: vec![],
        evdev_ignore: vec![],
        xcore_ignore: vec![],
        new_device_name: None,
        exclusive: false,
        prev_is_mouse: true,
    };
    assert_eq!(p.evdev_grabbed(&grab, 1, &vec![(true, true)]), vec![]);
    assert_eq!(p.ungrab(ConfigGrabMode::XInput), Ok(vec![Action::XUngrab]));
    assert!(p.is_mouse());
    assert_eq!(p.ungrab(ConfigGrabMode::Evdev), Ok(vec![Action::Abort(1), tablet()]));
}

#[test]
fn the_guest_starts_with_keyboard_and_tablet() {
    // the PS/2 keyboard is there already
    assert_eq!(process(ConfigQemuRouting::Qmp, vec![]).devices_init(), vec![tablet()]);
    assert_eq!(process(ConfigQemuRouting::VirtioHost, vec![]).devices_init(), vec![]);
    let usb = Process::new(
        ConfigQemuRouting::InputLinux,
        ConfigQemuDriver::Usb,
        ConfigQemuDriver::Ps2,
        ConfigQemuDriver::Usb,
        vec![],
    );
    let add = |device| Action::AddDevice { device, driver: ConfigQemuDriver::Usb };
    assert_eq!(
        usb.devices_init(),
        vec![add(InputDevice::Keyboard), add(InputDevice::Absolute)]
    );
    assert_eq!(usb.set_is_mouse(true), None);
    assert_eq!(usb.set_is_mouse(false), Some(add(InputDevice::Absolute)));
}

#[test]
fn devices_have_drivers_and_ids() {
    for (device, driver, name, id) in [
        (InputDevice::Keyboard, ConfigQemuDriver::Usb, "usb-kbd", "screenstub-dev-kbd"),
        (InputDevice::Relative, ConfigQemuDriver::Usb, "usb-mouse", "screenstub-dev-mouse"),
        (InputDevice::Absolute, ConfigQemuDriver::Usb, "usb-tablet", "screenstub-dev-mouse"),
        (
            InputDevice::Keyboard,
            ConfigQemuDriver::Virtio,
            "virtio-keyboard-pci",
            "screenstub-dev-kbd",
        ),
        (
            InputDevice::Relative,
            ConfigQemuDriver::Virtio,
            "virtio-mouse-pci",
            "screenstub-dev-mouse",
        ),
        (
            InputDevice::Absolute,
            ConfigQemuDriver::Virtio,
            "virtio-tablet-pci",
            "screenstub-dev-mouse",
        ),
    ] {
        let command = Process::add_device_cmd(device, driver).unwrap();
        assert_eq!(command.driver, name);
        assert_eq!(command.id.as_deref(), Some(id));
        assert_eq!(command.bus, None);
        assert!(command.arguments.is_empty());
    }
    assert_eq!(Process::add_device_cmd(InputDevice::Keyboard, ConfigQemuDriver::Ps2), None);
    assert_eq!(Process::add_device_cmd(InputDevice::Relative, ConfigQemuDriver::Ps2), None);
    assert_eq!(Process::add_device_cmd(InputDevice::Absolute, ConfigQemuDriver::Ps2), None);
}

#[test]
fn every_device_can_be_attached_by_ps2() {
    let ps2 = ConfigQemuDriver::Ps2;
    let exit_events = vec![ConfigEvent::Exit, ConfigEvent::ShowHost];
    let mut p = Process::new(ConfigQemuRouting::Qmp, ps2, ps2, ps2, exit_events);
    assert_eq!(p.devices_init(), vec![]);
    assert_eq!(p.set_is_mouse(false), None);
    assert_eq!(
        p.process_user_event(&ConfigEvent::Grab(ConfigGrab::XInput), None),
        vec![Ok(vec![Action::XGrab { motion: true }])]
    );
    assert_eq!(p.ungrab(ConfigGrabMode::XInput), Ok(vec![Action::XUngrab]));
    assert_eq!(
        p.process_user_event(&ConfigEvent::Exit, None),
        vec![Ok(vec![Action::ShowHost]), Ok(vec![Action::XQuit])]
    );
}

#[test]
fn actions_are_requests_to_the_window() {
    match (Action::XGrab { motion: true }).xreq() {
        Some(XRequest::Grab { xcore, confine, motion, devices }) => {
            assert!(xcore && !confine && motion && devices.is_empty());
        },
        _ => panic!("no grab"),
    }
    assert!(matches!(Action::XUngrab.xreq(), Some(XRequest::Ungrab)));
    assert!(matches!(Action::XUnstickHost.xreq(), Some(XRequest::UnstickHost)));
    assert!(matches!(Action::XQuit.xreq(), Some(XRequest::Quit)));
    assert!(Action::ShowHost.xreq().is_none());
}

#[test]
fn events_go_to_the_device_of_their_kind() {
    let kind = |kind, code, is_mouse| map_event_kind(&InputEvent::new(kind, code, 1), is_mouse);
    // keys and buttons
    assert_eq!(kind(EventKind::Key, 30, true), EventKind::Key);
    assert_eq!(kind(EventKind::Key, 0x110, true), EventKind::Relative);
    assert_eq!(kind(EventKind::Key, 0x110, false), EventKind::Absolute);
    assert_eq!(kind(EventKind::Key, 0x300, false), EventKind::Key);
    // axes of a pointer, and others
    assert_eq!(kind(EventKind::Absolute, 0, true), EventKind::Absolute);
    assert_eq!(kind(EventKind::Absolute, 1, true), EventKind::Absolute);
    assert_eq!(kind(EventKind::Absolute, 2, true), EventKind::Relative);
    assert_eq!(kind(EventKind::Absolute, 0x40, false), EventKind::Absolute);
    assert_eq!(kind(EventKind::Absolute, 0x20, true), EventKind::Key);
    assert_eq!(kind(EventKind::Relative, 1, false), EventKind::Relative);
    assert_eq!(kind(EventKind::Relative, 8, false), EventKind::Absolute);
    assert_eq!(kind(EventKind::Relative, 8, true), EventKind::Relative);
    assert_eq!(kind(EventKind::Led, 1, true), EventKind::Led);
    assert!(axis_is_relative(0) && axis_is_relative(1) && !axis_is_relative(8));
    assert!(axis_is_absolute(0) && axis_is_absolute(1) && !axis_is_absolute(2));
}

#[test]
fn events_are_sent_to_their_targets() {
    let targets = |keyboard, relative, absolute| Targets { keyboard, relative, absolute };
    let of = |kind, code| event_targets(&InputEvent::new(kind, code, 1), false);
    assert_eq!(of(EventKind::Key, 30), targets(true, false, false));
    assert_eq!(of(EventKind::Key, 0x110), targets(false, false, true));
    assert_eq!(of(EventKind::Relative, 0), targets(false, true, false));
    assert_eq!(of(EventKind::Synchronize, 0), targets(true, true, true));
    assert_eq!(of(EventKind::Led, 0), targets(false, false, false));
}

#[test]
fn results_of_window_events_are_dispatched() {
    let filter = InputEventFilter::new(&vec![ConfigInputEvent::Key]);
    let key = InputEvent::new(EventKind::Key, 30, 1);
    let wheel = InputEvent::new(EventKind::Relative, 8, 1);
    assert!(matches!(
        dispatch_x_event(ProcessedXEvent::InputEvent(key), &filter),
        XDispatch::Drop
    ));
    assert!(matches!(
        dispatch_x_event(ProcessedXEvent::InputEvent(wheel), &filter),
        XDispatch::Forward(e) if e == wheel
    ));
    assert!(matches!(
        dispatch_x_event(ProcessedXEvent::UserEvent(UserEvent::Quit), &filter),
        XDispatch::User(e) if matches!(*e, ConfigEvent::Exit)
    ));
}

#[test]
fn released_hotkeys_do_not_act_on_a_press() {
    let hotkey = |on_release| ConfigHotkey {
        triggers: vec![],
        modifiers: vec![],
        events: vec![ConfigEvent::ShowHost],
        on_release,
        global: false,
    };
    assert!(convert_hotkey(hotkey(false)).1);
    assert!(!convert_hotkey(hotkey(true)).1);
}

#[test]
fn screens_are_selected_by_number() {
    let screen = |instance: &str| ConfigScreen {
        monitor: ConfigMonitor {
            id: None,
            manufacturer: None,
            model: None,
            serial: None,
            xrandr_name: None,
        },
        guest_source: ConfigSource { value: None, name: None },
        host_source: ConfigSource { value: None, name: None },
        ddc: None,
        x_instance: Some(instance.into()),
    };
    let screens = || vec![screen("a"), screen("b"), screen("c")];
    assert_eq!(select_screen(screens(), 1).unwrap().x_instance.as_deref(), Some("b"));
    assert!(matches!(select_screen(screens(), 3), Err(NoScreen)));
    assert_eq!(NoScreen.message(), "expected a screen config");
}

#[test]
fn sources_are_described() {
    assert_eq!(source_line(0x11, 0x11), "  Source: HDMI-1 = 0x11 (Active)");
    assert_eq!(source_line(0x0f, 0x11), "  Source: DisplayPort-1 = 0x0f");
    assert_eq!(source_line(0xab, 0x11), "  Source: Unknown = 0xab");
}

#[test]
fn destinations_have_names() {
    assert_eq!(destination_is_host("host"), Some(true));
    assert_eq!(destination_is_host("guest"), Some(false));
    assert_eq!(destination_is_host("hosts"), None);
}

#[test]
fn made_devices_have_an_identity() {
    let id = InputId { bustype: 6, vendor: 0x16c0, product: 0x05df, version: 1 };
    assert_eq!(device_identity(), id);
    for (device, name, route) in [
        (InputDevice::Keyboard, "screenstub-kbd", "screenstub-route-kbd"),
        (InputDevice::Relative, "screenstub-mouse", "screenstub-route-mouse"),
        (InputDevice::Absolute, "screenstub-tablet", "screenstub-route-tablet"),
    ] {
        let mut builder = Builder::new();
        configure_device(device, &mut builder);
        assert_eq!(builder.name, name);
        assert_eq!(builder.id, id);
        assert_eq!(route_id(device), route);
    }
    assert_eq!(grab_route_id("pad"), "screenstub-uinput-pad");
}

#[test]
fn the_main_loop_ends_with_the_window() {
    assert_eq!(main_loop_step(LoopEvent::WindowGone), LoopStep::Succeed);
    assert_eq!(main_loop_step(LoopEvent::Failed), LoopStep::Fail);
    assert_eq!(main_loop_step(LoopEvent::User), LoopStep::Process);
    assert_eq!(main_loop_step(LoopEvent::SenderGone), LoopStep::GoOn);
}
