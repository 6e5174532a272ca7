use screenstub::config::ConfigQemuRouting;
use screenstub::input::{EventKind, EventTime, InputEvent, Key};
use screenstub::qemu::{Argument, DeviceAdd};
use screenstub::route::{
    BatchStep, CommandStep, InputAxis, InputButton, QmpInputEvent, Route, RouteCommand, RouteQmp,
    RouteUInput, RouteUInputVirtio, SendOutcome, UInputCommands, DEVICE_DELAY, THRESHOLD,
};
use screenstub::sink::{
    event_of_raw, FlushStep, NextStep, RawEvent, SinkError, UInputSink,
};
use screenstub::uinput::{
    AbsoluteInfo, AbsoluteInfoSetup, BitKind, Builder, EvdevBits, InputId, UInputStep,
};

fn key(code: u16, value: i32) -> InputEvent {
    InputEvent::new(EventKind::Key, code, value)
}

fn convert(e: InputEvent) -> Option<QmpInputEvent> {
    let keys: Vec<u8> = (0..200).map(|i| i as u8 ^ 0x80).collect();
    RouteQmp::convert_event(&e, &keys)
}

#[test]
fn events_are_converted_for_the_machine() {
    assert_eq!(convert(key(30, 1)), Some(QmpInputEvent::Key { down: true, qnum: 158 }));
    assert_eq!(convert(key(30, 0)), Some(QmpInputEvent::Key { down: false, qnum: 158 }));
    // a repetition is no press
    assert_eq!(convert(key(30, 2)), Some(QmpInputEvent::Key { down: false, qnum: 158 }));
    assert_eq!(convert(key(0, 1)), None);
    assert_eq!(convert(key(200, 1)), None);
    assert_eq!(convert(key(0x300, 1)), None);
    for (code, button) in [
        (0x110, InputButton::Left),
        (0x111, InputButton::Right),
        (0x112, InputButton::Middle),
        (0x113, InputButton::Side),
        (0x114, InputButton::Extra),
        (0x150, InputButton::WheelDown),
        (0x151, InputButton::WheelUp),
    ] {
        assert_eq!(convert(key(code, 1)), Some(QmpInputEvent::Btn { down: true, button }));
    }
    assert_eq!(convert(key(0x115, 1)), None);
    let axis = |kind, code| convert(InputEvent::new(kind, code, -5));
    let (x, y) = (InputAxis::X, InputAxis::Y);
    assert_eq!(axis(EventKind::Relative, 0), Some(QmpInputEvent::Rel { axis: x, value: -5 }));
    assert_eq!(axis(EventKind::Relative, 1), Some(QmpInputEvent::Rel { axis: y, value: -5 }));
    assert_eq!(axis(EventKind::Relative, 8), None);
    assert_eq!(axis(EventKind::Absolute, 0), Some(QmpInputEvent::Abs { axis: x, value: -5 }));
    assert_eq!(axis(EventKind::Absolute, 1), Some(QmpInputEvent::Abs { axis: y, value: -5 }));
    assert_eq!(axis(EventKind::Absolute, 0x18), None);
    assert_eq!(axis(EventKind::Synchronize, 0), None);
    assert_eq!(axis(EventKind::Led, 0), None);
}

#[test]
fn events_are_collected_before_they_are_sent() {
    let mut route = RouteQmp::new(vec![0, 11, 12]);
    let events = vec![key(1, 1), InputEvent::report(), key(2, 1), key(1, 0)];
    route.start(&events[0]);
    for e in &events[1..] {
        assert_eq!(route.more(Some(e)), BatchStep::More);
    }
    assert_eq!(route.events, RouteQmp::convert_events(&events, &[0, 11, 12]));
    assert_eq!(route.events.len(), 3);
    assert!(route.has_events());
    route.start(&InputEvent::report());
    assert!(!route.has_events());
    assert_eq!(route.more(None), BatchStep::End);
}

#[test]
fn batches_end_at_the_threshold() {
    let mut route = RouteQmp::new(vec![0, 11]);
    route.start(&key(1, 1));
    for _ in 1..THRESHOLD {
        assert_eq!(route.more(Some(&key(1, 1))), BatchStep::More);
    }
    assert_eq!(route.events.len(), 0x20);
    assert_eq!(route.more(Some(&key(1, 1))), BatchStep::Send);
    assert_eq!(route.events.len(), 0x21);
}

#[test]
fn rejected_events_do_not_end_a_route() {
    assert!(RouteQmp::goes_on(SendOutcome::Sent));
    assert!(RouteQmp::goes_on(SendOutcome::GenericError));
    assert!(!RouteQmp::goes_on(SendOutcome::Failed));
}

#[test]
fn a_device_is_added_by_virtio() {
    let route = RouteUInput::new_virtio_host("id".into(), Some("pci.1".into()));
    assert_eq!(
        route.commands.command_create("/dev/input/event9"),
        vec![RouteCommand::DeviceAdd {
            command: DeviceAdd {
                driver: "virtio-input-host-pci".into(),
                id: Some("id".into()),
                bus: Some("pci.1".into()),
                arguments: vec![
                    ("evdev".into(), Argument::Text("/dev/input/event9".into())),
                    ("multifunction".into(), Argument::Flag(true)),
                ],
            },
            delay: DEVICE_DELAY,
        }]
    );
    assert_eq!(route.commands.command_delete(), RouteCommand::DeviceDel { id: "id".into() });
    assert_eq!(DEVICE_DELAY, 512);
}

#[test]
fn a_device_is_read_by_the_machine() {
    let route = RouteUInput::new_input_linux("id".into(), true);
    assert_eq!(
        route.commands.command_create("/dev/input/event9"),
        vec![
            RouteCommand::ObjectReplace { id: "id".into(), delay: 512 },
            RouteCommand::ObjectAddInputLinux {
                id: "id".into(),
                evdev: "/dev/input/event9".into(),
                repeat: true,
            },
        ]
    );
    assert_eq!(route.commands.command_delete(), RouteCommand::ObjectDel { id: "id".into() });
}

#[test]
fn giving_a_device_up_may_fail() {
    let outcome = RouteUInput::<RouteUInputVirtio>::outcome::<u8>;
    assert_eq!(outcome(Ok(()), Ok(())), Ok(()));
    assert_eq!(outcome(Ok(()), Err(1)), Err(1));
    assert_eq!(outcome(Err(2), Err(1)), Err(2));
    assert_eq!(outcome(Err(2), Ok(())), Err(2));
}

#[test]
fn routes_are_configured() {
    let route =
        |routing| Route::new(routing, vec![7], "id".into(), Some("bus".into()), false);
    match route(ConfigQemuRouting::Qmp) {
        Route::Qmp(r) => assert_eq!(r.qkeycodes, vec![7]),
        _ => panic!("another route"),
    }
    match route(ConfigQemuRouting::VirtioHost) {
        Route::VirtioHost(r) => {
            assert_eq!(r.commands.id, "id");
            assert_eq!(r.commands.bus.as_deref(), Some("bus"));
        },
        _ => panic!("another route"),
    }
    match route(ConfigQemuRouting::InputLinux) {
        Route::InputLinux(r) => {
            assert_eq!(r.commands.id, "id");
            assert!(!r.commands.repeat);
        },
        _ => panic!("another route"),
    }
    assert!(route(ConfigQemuRouting::Qmp).builder().is_none());
    let mut linux = route(ConfigQemuRouting::InputLinux);
    linux.builder().unwrap().name("pad");
    match linux {
        Route::InputLinux(r) => assert_eq!(r.builder.name, "pad"),
        _ => panic!("another route"),
    }
}

fn codes(builder: &Builder, wanted: BitKind) -> Vec<u16> {
    let mut codes = Vec::new();
    for step in builder.create() {
        if let UInputStep::Bit { kind, code } = step {
            if kind == wanted {
                codes.push(code);
            }
        }
    }
    codes
}

#[test]
fn a_mouse_has_buttons_and_wheels() {
    let mut builder = Builder::new();
    builder.name("m").x_config_rel().id(&InputId { bustype: 1, vendor: 2, product: 3, version: 4 });
    assert_eq!(builder.name, "m");
    assert_eq!(builder.id.product, 3);
    assert_eq!(codes(&builder, BitKind::Event), vec![1, 2]);
    assert_eq!(codes(&builder, BitKind::Relative), vec![0, 1, 6, 8]);
    let buttons = codes(&builder, BitKind::Key);
    assert_eq!(buttons.len(), 0x60 + 0x40);
    assert!(buttons.contains(&0x110) && !buttons.contains(&30));
    assert_eq!(
        builder.create().last(),
        Some(&UInputStep::Create {
            id: InputId { bustype: 1, vendor: 2, product: 3, version: 4 },
            name: "m".to_string(),
            ff_effects: 0,
            abs: vec![],
        })
    );
}

#[test]
fn a_keyboard_has_keys() {
    let mut builder = Builder::new();
    builder.x_config_key(false);
    assert_eq!(codes(&builder, BitKind::Event), vec![1]);
    let keys = codes(&builder, BitKind::Key);
    assert_eq!(keys.len(), 0x300 - 0x60 - 0x40);
    assert!(keys.contains(&30) && !keys.contains(&0x110));
    builder.x_config_key(true);
    assert_eq!(codes(&builder, BitKind::Event), vec![1, 0x14]);
}

#[test]
fn a_tablet_has_axes() {
    let mut builder = Builder::new();
    builder.x_config_abs();
    assert_eq!(codes(&builder, BitKind::Event), vec![1, 2, 3]);
    assert_eq!(codes(&builder, BitKind::Absolute), vec![0, 1]);
    assert_eq!(codes(&builder, BitKind::Relative), vec![6, 8]);
    let info = AbsoluteInfo {
        value: 0,
        minimum: 0,
        maximum: 0x8000,
        fuzz: 0,
        flat: 0,
        resolution: 1,
    };
    assert_eq!(
        builder.abs,
        vec![AbsoluteInfoSetup { axis: 0, info }, AbsoluteInfoSetup { axis: 1, info }]
    );
}

#[test]
fn a_device_can_have_every_code() {
    let info =
        AbsoluteInfo { value: 0, minimum: 0, maximum: 1, fuzz: 0, flat: 0, resolution: 0 };
    // each list is in descending order, and starts over with its first code
    let down = |count: u16| (0..count).rev().chain([count - 1]).collect::<Vec<u16>>();
    let bits = EvdevBits {
        properties: down(0x20),
        events: down(0x20),
        keys: vec![],
        relative: down(0x10),
        misc: down(8),
        led: down(0x10),
        sound: down(8),
        switch: down(0x11),
        absolute: (0..0x40).rev().map(|axis| AbsoluteInfoSetup { axis, info }).collect(),
    };
    let mut builder = Builder::new();
    builder.from_evdev(&bits);
    for (kind, count) in [
        (BitKind::Property, 0x20),
        (BitKind::Event, 0x20),
        (BitKind::Key, 0),
        (BitKind::Relative, 0x10),
        (BitKind::Absolute, 0x40),
        (BitKind::Misc, 8),
        (BitKind::Led, 0x10),
        (BitKind::Sound, 8),
        (BitKind::Switch, 0x11),
    ] {
        assert_eq!(codes(&builder, kind), (0..count).collect::<Vec<u16>>());
    }
}

#[test]
fn a_device_is_made_like_another() {
    let info =
        AbsoluteInfo { value: 1, minimum: 2, maximum: 3, fuzz: 4, flat: 5, resolution: 6 };
    let bits = EvdevBits {
        properties: vec![1],
        events: vec![4, 1],
        keys: vec![Key::from_code(30).unwrap(), Key::from_code(2).unwrap()],
        relative: vec![7],
        misc: vec![3],
        led: vec![2],
        sound: vec![1],
        switch: vec![0x10],
        absolute: vec![AbsoluteInfoSetup { axis: 0x18, info }],
    };
    let mut builder = Builder::new();
    builder.from_evdev(&bits);
    let bit = |kind, code| UInputStep::Bit { kind, code };
    assert_eq!(
        builder.create(),
        vec![
            bit(BitKind::Property, 1),
            bit(BitKind::Event, 1),
            bit(BitKind::Event, 4),
            bit(BitKind::Key, 2),
            bit(BitKind::Key, 30),
            bit(BitKind::Relative, 7),
            bit(BitKind::Absolute, 0x18),
            bit(BitKind::Misc, 3),
            bit(BitKind::Led, 2),
            bit(BitKind::Sound, 1),
            bit(BitKind::Switch, 0x10),
            UInputStep::Create {
                id: InputId { bustype: 0, vendor: 0, product: 0, version: 0 },
                name: String::new(),
                ff_effects: 0,
                abs: vec![AbsoluteInfoSetup { axis: 0x18, info }],
            },
        ]
    );
    assert_eq!(builder.abs, vec![AbsoluteInfoSetup { axis: 0x18, info }]);
}

#[test]
fn a_replaced_object_needs_time_to_leave() {
    let replace = RouteCommand::ObjectReplace { id: "id".into(), delay: 512 };
    assert_eq!(replace.answered(true), CommandStep::Wait { delay: 512 });
    assert_eq!(replace.answered(false), CommandStep::Done);
    let delete = RouteCommand::ObjectDel { id: "id".into() };
    assert_eq!(delete.answered(true), CommandStep::Done);
    assert_eq!(delete.answered(false), CommandStep::Failed);
}

fn stamped(kind: EventKind, code: u16, value: i32) -> InputEvent {
    InputEvent { time: EventTime { seconds: 12, microseconds: 34 }, kind, code, value }
}

#[test]
fn sent_events_are_read() {
    let mut sink = UInputSink::new();
    let events = [
        stamped(EventKind::Key, 30, 1),
        stamped(EventKind::Relative, 8, -3),
        stamped(EventKind::Unknown(0x1f), 0xffff, i32::MIN),
        InputEvent::report(),
    ];
    for e in &events {
        assert_eq!(sink.start_send(e), Ok(()));
    }
    let mut source = UInputSink::new();
    assert_eq!(source.poll_next(), Ok(NextStep::Read));
    source.read_events(sink.pending());
    for e in events {
        assert_eq!(source.poll_next(), Ok(NextStep::Event(e)));
    }
    assert_eq!(source.poll_next(), Ok(NextStep::Read));
    source.read_events(&[]);
    assert_eq!(source.poll_next(), Ok(NextStep::End));
}

#[test]
fn written_bytes_leave_the_sink() {
    let mut sink = UInputSink::new();
    assert_eq!(sink.poll_flush(), Ok(FlushStep::Done));
    assert_eq!(sink.write_events(0), Ok(0));
    sink.start_send(&key(30, 1)).unwrap();
    let one = sink.pending().len();
    sink.start_send(&key(31, 1)).unwrap();
    assert_eq!(sink.pending().len(), 2 * one);
    assert_eq!(sink.poll_flush(), Ok(FlushStep::Write));
    assert_eq!(sink.write_events(0), Err(SinkError::WriteZero));
    assert_eq!(sink.write_events(one), Ok(one));
    let mut source = UInputSink::new();
    source.read_events(sink.pending());
    assert_eq!(source.poll_next(), Ok(NextStep::Event(key(31, 1))));
    assert_eq!(sink.write_events(one), Ok(one));
    assert_eq!(sink.poll_flush(), Ok(FlushStep::Done));
}

#[test]
fn an_event_is_sent_behind_half_of_another() {
    let mut sink = UInputSink::new();
    sink.start_send(&key(30, 1)).unwrap();
    let one = sink.pending().len();
    let whole = sink.pending().to_vec();
    assert_eq!(sink.write_events(one / 2), Ok(one / 2));
    sink.start_send(&stamped(EventKind::Relative, 8, -3)).unwrap();
    assert_eq!(sink.pending()[..one - one / 2], whole[one / 2..]);
    // the bytes arrive in pieces
    let mut source = UInputSink::new();
    source.read_events(&whole[..one / 2]);
    assert_eq!(source.poll_next(), Ok(NextStep::Read));
    source.read_events(sink.pending());
    assert_eq!(source.poll_next(), Ok(NextStep::Event(key(30, 1))));
    assert_eq!(source.poll_next(), Ok(NextStep::Event(stamped(EventKind::Relative, 8, -3))));
    assert_eq!(source.poll_next(), Ok(NextStep::Read));
}

#[test]
fn a_timestamp_is_kept() {
    let mut sink = UInputSink::new();
    let mut event = key(30, 1);
    event.time = EventTime { seconds: -0x7654_3210, microseconds: 999_999 };
    sink.start_send(&event).unwrap();
    let mut source = UInputSink::new();
    source.read_events(sink.pending());
    assert_eq!(source.poll_next(), Ok(NextStep::Event(event)));
}

#[test]
fn a_sink_is_flushed_after_some_events() {
    let mut sink = UInputSink::new();
    for _ in 0..8 {
        assert_eq!(sink.poll_ready(), Ok(true));
        sink.start_send(&InputEvent::report()).unwrap();
    }
    assert_eq!(sink.poll_ready(), Ok(true));
    sink.start_send(&InputEvent::report()).unwrap();
    assert_eq!(sink.poll_ready(), Ok(false));
}

#[test]
fn a_closed_sink_takes_nothing() {
    let mut sink = UInputSink::new();
    sink.start_send(&key(30, 1)).unwrap();
    sink.poll_close();
    assert_eq!(sink.poll_ready(), Err(SinkError::Closed));
    assert_eq!(sink.start_send(&key(30, 0)), Err(SinkError::Closed));
    assert_eq!(sink.poll_flush(), Err(SinkError::Closed));
}

#[test]
fn bytes_that_are_no_event() {
    let mut sink = UInputSink::new();
    sink.start_send(&stamped(EventKind::Key, 30, 1)).unwrap();
    let mut bytes = sink.pending().to_vec();
    let len = bytes.len();
    // the type stands in front of the code and the value
    bytes[len - 8..len - 6].copy_from_slice(&0x55u16.to_ne_bytes());
    let mut source = UInputSink::new();
    source.read_events(&bytes);
    source.read_events(&bytes[..3]);
    assert_eq!(source.poll_next(), Err(SinkError::BadEvent));
    assert_eq!(source.poll_next(), Ok(NextStep::Read));
    source.read_events(&[]);
    assert_eq!(source.poll_next(), Err(SinkError::BytesRemaining));
}

#[test]
fn raw_events_are_read() {
    let raw = RawEvent { seconds: 1, microseconds: 2, type_: 3, code: 4, value: 5 };
    let event = event_of_raw(&raw);
    assert_eq!(
        event,
        InputEvent {
            time: EventTime { seconds: 1, microseconds: 2 },
            kind: EventKind::Absolute,
            code: 4,
            value: 5,
        }
    );
}

#[test]
fn sink_errors_have_messages() {
    assert_eq!(SinkError::Closed.message(), "uinput fd is closed");
    assert_eq!(SinkError::WriteZero.message(), "failed to write to uinput");
    assert_eq!(SinkError::BadEvent.message(), "input event out of range");
    assert_eq!(SinkError::BytesRemaining.message(), "bytes remaining on stream");
}
