use screenstub::config::{
    ConfigDdc, ConfigGrab, ConfigGrabMode, ConfigInputEvent, ConfigQemu, ConfigQemuDriver,
    ConfigQemuRouting, ConfigSource, ConfigSourceName,
};
use screenstub::filter::{EventFlags, InputEventFilter};
use screenstub::input::{EventKind, EventRef, InputEvent, Key, RangeError};

fn key(code: u16) -> Key {
    Key::from_code(code).unwrap()
}

#[test]
fn key_codes_end_at_their_count() {
    assert_eq!(key(0x2ff).code(), 0x2ff);
    assert!(Key::from_code(0x300).is_none());
    assert!(Key::from_code(0xffff).is_none());
}

#[test]
fn buttons_are_told_from_keys() {
    assert!(key(0x110).is_button());
    assert!(!key(0x110).is_key());
    assert!(key(30).is_key());
    assert!(!key(30).is_button());
    assert!(key(0x15f).is_button());
    assert!(key(0x160).is_key());
    assert!(key(0x2c0).is_button());
    assert!(key(0x2bf).is_key());
}

#[test]
fn every_key_code_reads_as_itself() {
    for code in 0..0x300u16 {
        let k = key(code);
        assert_eq!(k.code(), code);
        let button = (0x100..0x160).contains(&code) || code >= 0x2c0;
        assert_eq!(k.is_button(), button, "code {:#x}", code);
        assert_eq!(k.is_key(), !button, "code {:#x}", code);
    }
}

#[test]
fn events_are_read_by_their_kind() {
    let e = InputEvent::new(EventKind::Key, 30, 1);
    assert_eq!(EventRef::new(&e), Ok(EventRef::Key { key: key(30), value: 1 }));
    let e = InputEvent::new(EventKind::Relative, 1, -5);
    assert_eq!(EventRef::new(&e), Ok(EventRef::Relative { axis: 1, value: -5 }));
    let e = InputEvent::new(EventKind::Unknown(0x1e), 0xffff, 0);
    assert_eq!(EventRef::new(&e), Ok(EventRef::Unknown));
}

#[test]
fn codes_out_of_range_are_rejected() {
    let counts = [
        (EventKind::Synchronize, 0x10),
        (EventKind::Key, 0x300),
        (EventKind::Relative, 0x10),
        (EventKind::Absolute, 0x40),
        (EventKind::Misc, 0x08),
        (EventKind::Switch, 0x11),
        (EventKind::Led, 0x10),
        (EventKind::Sound, 0x08),
        (EventKind::Autorepeat, 0x02),
        (EventKind::ForceFeedback, 0x80),
        (EventKind::ForceFeedbackStatus, 0x02),
        (EventKind::UInput, 0x03),
    ];
    for (kind, count) in counts {
        assert!(EventRef::new(&InputEvent::new(kind, count - 1, 0)).is_ok(), "{:?}", kind);
        assert_eq!(EventRef::new(&InputEvent::new(kind, count, 0)), Err(RangeError), "{:?}", kind);
    }
    assert!(EventRef::new(&InputEvent::new(EventKind::Power, 0xffff, 0)).is_ok());
}

#[test]
fn kinds_have_their_numbers() {
    for number in 0..0x200u16 {
        assert_eq!(EventKind::from_type(number).code(), number);
    }
    assert_eq!(EventKind::from_type(3), EventKind::Absolute);
    assert_eq!(EventKind::from_type(0x101), EventKind::UInput);
    assert_eq!(EventKind::from_type(6), EventKind::Unknown(6));
}

#[test]
fn a_report_ends_a_group() {
    let e = InputEvent::report();
    assert_eq!((e.kind, e.code, e.value), (EventKind::Synchronize, 0, 0));
    assert_eq!(e.time.seconds, 0);
}

#[test]
fn drivers_fall_back() {
    let mut qemu = ConfigQemu::default();
    assert_eq!(qemu.keyboard_driver(), ConfigQemuDriver::Ps2);
    assert_eq!(qemu.relative_driver(), ConfigQemuDriver::Usb);
    assert_eq!(qemu.absolute_driver(), ConfigQemuDriver::Usb);
    assert_eq!(qemu.routing, ConfigQemuRouting::Qmp);
    qemu.driver = Some(ConfigQemuDriver::Virtio);
    assert_eq!(qemu.keyboard_driver(), ConfigQemuDriver::Virtio);
    qemu.relative_driver = Some(ConfigQemuDriver::Ps2);
    assert_eq!(qemu.relative_driver(), ConfigQemuDriver::Ps2);
    assert_eq!(qemu.absolute_driver(), ConfigQemuDriver::Virtio);
}

#[test]
fn classes_of_events() {
    let class = |kind, code| ConfigInputEvent::from_event(&InputEvent::new(kind, code, 1));
    assert_eq!(class(EventKind::Key, 30), Some(ConfigInputEvent::Key));
    assert_eq!(class(EventKind::Key, 0x110), Some(ConfigInputEvent::Button));
    assert_eq!(class(EventKind::Relative, 0), Some(ConfigInputEvent::Relative));
    assert_eq!(class(EventKind::Absolute, 0), Some(ConfigInputEvent::Absolute));
    assert_eq!(class(EventKind::Misc, 0), Some(ConfigInputEvent::Misc));
    assert_eq!(class(EventKind::Switch, 0), Some(ConfigInputEvent::Switch));
    assert_eq!(class(EventKind::Led, 0), Some(ConfigInputEvent::Led));
    assert_eq!(class(EventKind::Sound, 0), Some(ConfigInputEvent::Sound));
    assert_eq!(class(EventKind::Synchronize, 0), None);
    assert_eq!(class(EventKind::Key, 0x300), None);
}

#[test]
fn an_event_matches_one_class_only() {
    let classes = [
        ConfigInputEvent::Key,
        ConfigInputEvent::Button,
        ConfigInputEvent::Relative,
        ConfigInputEvent::Absolute,
        ConfigInputEvent::Misc,
        ConfigInputEvent::Switch,
        ConfigInputEvent::Led,
        ConfigInputEvent::Sound,
    ];
    let e = InputEvent::new(EventKind::Key, 0x111, 1);
    let read = EventRef::new(&e).unwrap();
    let matching: Vec<_> = classes.iter().filter(|c| c.event_matches(read)).collect();
    assert_eq!(matching, vec![&ConfigInputEvent::Button]);
}

#[test]
fn sources_have_values_and_names() {
    assert_eq!(ConfigSourceName::HDMI1.value(), 0x11);
    assert_eq!(ConfigSourceName::from_value(0x0f), Some(ConfigSourceName::DisplayPort1));
    assert_eq!(ConfigSourceName::from_value(0), None);
    assert_eq!(ConfigSourceName::from_value(0x13), None);
    assert_eq!(ConfigSourceName::SVideo1.name(), "S-video-1");
    assert_eq!(ConfigSourceName::from_value_unchecked(3), ConfigSourceName::DVI1);
    for value in 1..=0x12u8 {
        assert_eq!(ConfigSourceName::from_value(value).unwrap().value(), value);
    }
}

#[test]
fn a_source_value_goes_before_a_name() {
    let both = ConfigSource { value: Some(9), name: Some(ConfigSourceName::DVI2) };
    assert_eq!(both.value(), Some(9));
    let name = ConfigSource { value: None, name: Some(ConfigSourceName::DVI2) };
    assert_eq!(name.value(), Some(4));
    assert_eq!(ConfigSource { value: None, name: None }.value(), None);
}

#[test]
fn ddc_defaults() {
    let ddc = ConfigDdc::default();
    assert_eq!(ddc.minimal_delay, 100);
    assert_eq!(ddc.host.len(), 1);
    assert_eq!(ddc.guest.len(), 1);
}

#[test]
fn grabs_have_modes() {
    assert_eq!(ConfigGrab::default().mode(), ConfigGrabMode::XCore);
    assert_eq!(ConfigGrab::XInput.mode(), ConfigGrabMode::XInput);
    assert_eq!(ConfigGrab::XDevice { devices: vec![] }.mode(), ConfigGrabMode::XDevice);
    assert_eq!(ConfigGrabMode::default(), ConfigGrabMode::XCore);
}

#[test]
fn filters_hold_classes_back() {
    let mut filter = InputEventFilter::new(&vec![ConfigInputEvent::Key]);
    let press = InputEvent::new(EventKind::Key, 30, 1);
    let click = InputEvent::new(EventKind::Key, 0x110, 1);
    assert!(!filter.filter_event(&press));
    assert!(filter.filter_event(&click));
    assert!(filter.filter_event(&InputEvent::report()));
    filter.set_filter(&vec![ConfigInputEvent::Button]);
    assert!(!filter.filter_event(&click));
    filter.unset_filter(&vec![ConfigInputEvent::Button]);
    assert!(filter.filter_event(&click));
    assert!(!filter.filter_event(&press));
    assert!(InputEventFilter::empty().filter_event(&press));
}

#[test]
fn unsetting_a_filter_undoes_setting_it() {
    let mut filter = InputEventFilter::new(&vec![ConfigInputEvent::Led]);
    let before = filter.filter();
    let classes = vec![ConfigInputEvent::Key, ConfigInputEvent::Sound];
    filter.set_filter(&classes);
    assert_ne!(filter.filter(), before);
    filter.unset_filter(&classes);
    assert_eq!(filter.filter(), before);
}

#[test]
fn filters_are_modified_by_functions() {
    let mut filter = InputEventFilter::empty();
    filter.filter_modify(|mut flags| {
        flags.insert(EventFlags::only(ConfigInputEvent::Relative));
        flags
    });
    assert!(filter.filter().contains(ConfigInputEvent::Relative));
    assert!(!filter.filter().contains(ConfigInputEvent::Absolute));
    filter.filter_set(EventFlags::empty());
    assert!(!filter.filter().contains(ConfigInputEvent::Relative));
}
