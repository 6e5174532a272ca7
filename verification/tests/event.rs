use screenstub::config::{ConfigEvent, ConfigHotkey};
use screenstub::dispatch::{convert_hotkey, convert_user_event};
use screenstub::event::{Events, Hotkey, ProcessedXEvent, UserEvent};
use screenstub::input::{EventKind, InputEvent, Key};
use screenstub::x::XEvent;

fn k(code: u16) -> Key {
    Key::from_code(code).unwrap()
}

fn press(code: u16) -> InputEvent {
    InputEvent::new(EventKind::Key, code, 1)
}

fn release(code: u16) -> InputEvent {
    InputEvent::new(EventKind::Key, code, 0)
}

fn owned(caused: Vec<&u32>) -> Vec<u32> {
    caused.into_iter().copied().collect()
}

#[test]
fn hotkey_keys_are_triggers_and_modifiers() {
    let hotkey = Hotkey::new(vec![k(30), k(31)], vec![k(29)], vec![1u32]);
    assert_eq!(hotkey.keys(), vec![k(30), k(31), k(29)]);
}

#[test]
fn a_hotkey_needs_all_its_keys() {
    let mut events = Events::new();
    events.add_hotkey(Hotkey::new(vec![k(30)], vec![k(29), k(42)], vec![7u32, 8]), true);
    assert!(events.process_input_event(&press(30)).is_empty());
    events.process_input_event(&release(30));
    events.process_input_event(&press(29));
    assert!(events.process_input_event(&press(30)).is_empty());
    events.process_input_event(&press(42));
    assert_eq!(owned(events.process_input_event(&press(30))), vec![7, 8]);
    events.process_input_event(&release(42));
    assert!(events.process_input_event(&press(30)).is_empty());
}

#[test]
fn hotkeys_act_on_press_or_on_release() {
    let mut events = Events::new();
    events.add_hotkey(Hotkey::new(vec![k(30)], vec![], vec![1u32]), true);
    events.add_hotkey(Hotkey::new(vec![k(30)], vec![], vec![2u32]), false);
    events.add_hotkey(Hotkey::new(vec![k(30)], vec![], vec![3u32]), true);
    assert_eq!(owned(events.process_input_event(&press(30))), vec![1, 3]);
    assert_eq!(owned(events.process_input_event(&release(30))), vec![2]);
    // the key is up again, so that another release has no complete hotkey
    assert!(events.process_input_event(&release(30)).is_empty());
}

#[test]
fn a_trigger_named_twice_acts_twice() {
    let mut events = Events::new();
    events.add_hotkey(Hotkey::new(vec![k(30), k(30)], vec![], vec![5u32]), true);
    assert_eq!(owned(events.process_input_event(&press(30))), vec![5, 5]);
}

#[test]
fn other_events_do_nothing() {
    let mut events = Events::new();
    events.add_hotkey(Hotkey::new(vec![k(30)], vec![], vec![1u32]), true);
    let repeat = InputEvent::new(EventKind::Key, 30, 2);
    assert!(events.process_input_event(&repeat).is_empty());
    assert!(events.process_input_event(&press(0x300)).is_empty());
    assert!(events.process_input_event(&InputEvent::report()).is_empty());
    assert_eq!(events.unstick_guest(), vec![InputEvent::report()]);
}

#[test]
fn keys_are_remapped() {
    let mut events: Events<u32> = Events::new();
    events.add_remap(k(58), k(1));
    assert_eq!(events.map_input_event(press(58)), press(1));
    assert_eq!(events.map_input_event(press(59)), press(59));
    let relative = InputEvent::new(EventKind::Relative, 58, 1);
    assert_eq!(events.map_input_event(relative), relative);
    events.add_remap(k(58), k(2));
    assert_eq!(events.map_input_event(release(58)), release(2));
}

#[test]
fn unsticking_releases_the_keys_that_are_down() {
    let mut events: Events<u32> = Events::new();
    for code in [100, 30, 0x110, 42] {
        events.process_input_event(&press(code));
    }
    events.process_input_event(&release(42));
    assert_eq!(
        events.unstick_guest(),
        vec![release(30), release(100), release(0x110), InputEvent::report()]
    );
    assert_eq!(events.unstick_guest(), vec![InputEvent::report()]);
}

#[test]
fn releases_reach_a_second_state() {
    let mut guest: Events<u32> = Events::new();
    let mut host: Events<u32> = Events::new();
    for code in [3, 7, 0x2ff] {
        guest.process_input_event(&press(code));
        host.process_input_event(&press(code));
    }
    for e in guest.unstick_guest() {
        host.process_input_event(&e);
    }
    assert_eq!(host.unstick_guest(), vec![InputEvent::report()]);
}

#[test]
fn window_events_are_processed() {
    let mut events: Events<u32> = Events::new();
    assert_eq!(
        events.process_x_event(&XEvent::Close),
        vec![ProcessedXEvent::UserEvent(UserEvent::Quit)]
    );
    assert_eq!(
        events.process_x_event(&XEvent::Visible(true)),
        vec![ProcessedXEvent::UserEvent(UserEvent::ShowGuest)]
    );
    assert_eq!(
        events.process_x_event(&XEvent::Visible(false)),
        vec![ProcessedXEvent::UserEvent(UserEvent::ShowHost)]
    );
    assert_eq!(
        events.process_x_event(&XEvent::Input(press(30))),
        vec![ProcessedXEvent::InputEvent(press(30))]
    );
    assert!(events.process_x_event(&XEvent::Focus(true)).is_empty());
}

#[test]
fn losing_the_focus_unsticks_the_guest() {
    let mut events: Events<u32> = Events::new();
    for code in [30, 29, 31, 32, 33, 34] {
        events.process_input_event(&press(code));
    }
    let expected: Vec<_> = [29, 30, 31, 32, 33, 34]
        .iter()
        .map(|&code| ProcessedXEvent::InputEvent(release(code)))
        .chain(std::iter::once(ProcessedXEvent::InputEvent(InputEvent::report())))
        .collect();
    assert_eq!(events.process_x_event(&XEvent::Focus(false)), expected);
    assert_eq!(
        events.process_x_event(&XEvent::Focus(false)),
        vec![ProcessedXEvent::InputEvent(InputEvent::report())]
    );
}

#[test]
fn user_events_are_converted() {
    assert!(matches!(*convert_user_event(UserEvent::Quit), ConfigEvent::Exit));
    assert!(matches!(*convert_user_event(UserEvent::ShowGuest), ConfigEvent::ShowGuest));
    assert!(matches!(*convert_user_event(UserEvent::ShowHost), ConfigEvent::ShowHost));
    assert!(matches!(*convert_user_event(UserEvent::UnstickGuest), ConfigEvent::UnstickGuest));
    assert!(matches!(*convert_user_event(UserEvent::UnstickHost), ConfigEvent::UnstickHost));
}

#[test]
fn configured_hotkeys_are_converted() {
    let (hotkey, on_press) = convert_hotkey(ConfigHotkey {
        triggers: vec![k(1)],
        modifiers: vec![k(2)],
        events: vec![ConfigEvent::ShowHost, ConfigEvent::Exit],
        on_release: true,
        global: false,
    });
    assert_eq!(hotkey.keys(), vec![k(1), k(2)]);
    assert!(!on_press);
    let mut events = Events::new();
    events.add_hotkey(hotkey, on_press);
    events.process_input_event(&press(1));
    events.process_input_event(&press(2));
    let caused = events.process_input_event(&release(1));
    assert_eq!(caused.len(), 2);
    assert!(matches!(**caused[0], ConfigEvent::ShowHost));
    assert!(matches!(**caused[1], ConfigEvent::Exit));
}
