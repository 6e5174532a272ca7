use screenstub::config::{ConfigDdcMethod, ConfigMonitor, ConfigSource, ConfigSourceName};
use screenstub::ddc::ddcutil;
use screenstub::ddc::{
    find_guest_source, first_match, query, DdcDisabled, DdcError, DdcMonitor, DisplayInfo,
    DisplayMatch, DummyMonitor, Monitor, Query, SearchDisplay, FEATURE_CODE_INPUT,
};
use screenstub::inputs::{convert_display, Connect, Inputs, InputsError, ShowAction, Wants};
use std::collections::HashMap;

fn info(id: &str, model: Option<&str>) -> DisplayInfo {
    DisplayInfo {
        id: id.into(),
        manufacturer_id: Some("ACR".into()),
        model_name: model.map(String::from),
        serial_number: None,
    }
}

fn nothing_searched() -> SearchDisplay {
    SearchDisplay::default()
}

#[test]
fn monitors_are_searched_for() {
    let one = info("1", Some("XB"));
    assert!(matches!(query(&nothing_searched()), Query::Any));
    assert!(query(&nothing_searched()).matches(&one));
    let search = SearchDisplay {
        backend_id: Some("1".into()),
        manufacturer_id: Some("ACR".into()),
        model_name: Some("XB".into()),
        ..nothing_searched()
    };
    assert!(query(&search).matches(&one));
    assert!(!query(&search).matches(&info("2", Some("XB"))));
    assert!(!query(&search).matches(&info("1", Some("xb"))));
    // what the monitor does not say does not match
    assert!(!query(&search).matches(&info("1", None)));
    let serial = SearchDisplay { serial_number: Some("7".into()), ..nothing_searched() };
    assert!(!query(&serial).matches(&one));
    let other = SearchDisplay { manufacturer_id: Some("DEL".into()), ..nothing_searched() };
    assert!(!query(&other).matches(&one));
    // the path is not asked for
    let path = SearchDisplay { path: Some("/dev/i2c-3".into()), ..nothing_searched() };
    assert!(query(&path).matches(&one));
}

#[test]
fn the_first_monitor_that_fits_is_taken() {
    let displays = || {
        vec![
            Monitor::new(info("1", Some("A"))),
            Monitor::new(info("2", Some("B"))),
            Monitor::new(info("3", Some("B"))),
        ]
    };
    let search = |model: &str| SearchDisplay { model_name: Some(model.into()), ..nothing_searched() };
    assert_eq!(first_match(displays(), &search("B")).unwrap().info.id, "2");
    assert!(first_match(displays(), &search("C")).is_none());
    assert!(Monitor::new(info("1", Some("A"))).matches(&search("A")));
}

#[test]
fn the_guests_source_is_another_one() {
    assert_eq!(find_guest_source(&[0x0f, 0x11, 0x12], 0x0f), Some(0x11));
    assert_eq!(find_guest_source(&[0x0f, 0x11], 0x11), Some(0x0f));
    assert_eq!(find_guest_source(&[0x11, 0x11], 0x11), None);
    assert_eq!(find_guest_source(&[], 0x11), None);
}

#[test]
fn sources_of_a_monitor_are_kept() {
    let mut monitor = Monitor::new(info("1", None));
    assert!(monitor.needs_sources());
    assert_eq!(monitor.sources(None), Vec::<u8>::new());
    assert!(monitor.needs_sources());
    assert_eq!(monitor.sources(Some(vec![1, 2])), vec![1, 2]);
    assert!(!monitor.needs_sources());
    assert_eq!(monitor.sources(Some(vec![3])), vec![1, 2]);
    assert_eq!(Monitor::get_source(0x0311), 0x11);
    assert_eq!(Monitor::set_source(0x11), 0x0011);
    assert_eq!(FEATURE_CODE_INPUT, 0x60);
}

#[test]
fn monitors_describe_themselves() {
    assert_eq!(
        Monitor::new(info("i2c-3", Some("XB"))).describe(),
        "ID: i2c-3\nManufacturer: ACR\nModel: XB\n"
    );
    let full = DisplayInfo { serial_number: Some("42".into()), ..info("x", None) };
    assert_eq!(Monitor::new(full).describe(), "ID: x\nManufacturer: ACR\nSerial: 42\n");
}

#[test]
fn without_control_there_is_no_monitor() {
    let mut monitor = DummyMonitor;
    assert!(!monitor.matches(&nothing_searched()));
    assert_eq!(DummyMonitor::search(&nothing_searched()), Err(DdcDisabled));
    assert_eq!(DummyMonitor::enumerate(), Err(DdcDisabled));
    assert_eq!(monitor.sources(), Err(DdcDisabled));
    assert_eq!(monitor.get_source(), Err(DdcDisabled));
    assert_eq!(monitor.set_source(1), Err(DdcDisabled));
    assert_eq!(DdcMonitor::find_guest_source(&mut monitor, 1), Err(DdcDisabled));
    assert_eq!(DdcDisabled.message(), "ddc disabled");
    assert_eq!(DdcError::DisplayNotFound.message(), "Display not found");
    assert_eq!(DdcError::FeatureCodeNotFound.message(), "Feature code not found");
}

struct Panel {
    id: u8,
    sources: Result<Vec<u8>, u8>,
}

impl DisplayMatch for Panel {
    fn fits(&self, search: SearchDisplay) -> bool {
        search.backend_id == Some(self.id.to_string())
    }

    fn matches(&self, search: &SearchDisplay) -> bool {
        self.fits(search.clone())
    }
}

impl DdcMonitor for Panel {
    type Error = u8;

    fn enumerate() -> Result<Vec<Panel>, u8> {
        Ok(vec![
            Panel { id: 1, sources: Ok(vec![3, 4]) },
            Panel { id: 2, sources: Err(9) },
        ])
    }

    fn sources(&mut self) -> Result<Vec<u8>, u8> {
        self.sources.clone()
    }

    fn get_source(&mut self) -> Result<u8, u8> {
        Ok(3)
    }

    fn set_source(&mut self, _value: u8) -> Result<(), u8> {
        Ok(())
    }
}

#[test]
fn monitors_of_other_kinds_are_searched_for() {
    let search = |id: &str| SearchDisplay { backend_id: Some(id.into()), ..nothing_searched() };
    let mut one = Panel::search(&search("1")).unwrap().unwrap();
    assert_eq!(one.find_guest_source(3), Ok(Some(4)));
    assert_eq!(one.find_guest_source(4), Ok(Some(3)));
    let mut two = Panel::search(&search("2")).unwrap().unwrap();
    assert_eq!(two.find_guest_source(3), Err(9));
    assert!(Panel::search(&search("3")).unwrap().is_none());
}

fn util_info(model: &str, path: &str) -> ddcutil::DisplayInfo {
    ddcutil::DisplayInfo {
        manufacturer_id: "ACR".into(),
        model_name: model.into(),
        serial_number: "7".into(),
        path: path.into(),
    }
}

#[test]
fn the_library_finds_displays() {
    let search = SearchDisplay {
        model_name: Some("XB".into()),
        path: Some("b".into()),
        ..nothing_searched()
    };
    assert!(search.matches(&util_info("XB", "b")));
    assert!(!search.matches(&util_info("XA", "b")));
    let displays = vec![util_info("XB", "a"), util_info("XB", "b")];
    let monitor = ddcutil::Monitor::new(search.clone());
    assert_eq!(monitor.find_display(&displays), Ok(Some(1)));
    assert_eq!(monitor.find_display(&vec![]), Err(DdcError::DisplayNotFound));
    assert_eq!(*monitor.search(), search);
    assert!(monitor.info().is_none());
    assert!(monitor.inputs().is_none());
    assert_eq!(monitor.our_input(), None);
    assert!(monitor.other_inputs().is_empty());
    assert_eq!(*ddcutil::Monitor::default().search(), nothing_searched());
}

fn opened() -> ddcutil::Monitor {
    let mut names = HashMap::new();
    names.insert(0x0f, "DP".to_string());
    names.insert(0x11, "HDMI".to_string());
    names.insert(0x99, "Other".to_string());
    ddcutil::Monitor::from_display_info(
        util_info("XB", "a"),
        Some(vec![0x11, 0x0f, 0x03]),
        names,
        Some(0x0f),
        None,
    )
    .unwrap()
}

#[test]
fn the_library_lists_inputs() {
    let mut monitor = opened();
    assert_eq!(monitor.info(), Some(&util_info("XB", "a")));
    assert_eq!(monitor.inputs().unwrap().len(), 3);
    assert_eq!(monitor.our_input(), Some(0x0f));
    assert_eq!(monitor.other_inputs(), vec![(0x03, "Unknown"), (0x11, "HDMI")]);
    assert_eq!(monitor.get_input(0x11), (0x11, "HDMI".to_string()));
    assert_eq!(monitor.get_input(0x99), (0x99, "Unknown".to_string()));
    assert_eq!(monitor.find_display(&vec![]), Ok(None));
    monitor.reset_handle();
    assert!(monitor.info().is_none());
    assert_eq!(*monitor.search(), nothing_searched());
    assert!(matches!(
        ddcutil::Monitor::from_display_info(
            util_info("XB", "a"),
            None,
            HashMap::new(),
            None,
            None
        ),
        Err(DdcError::FeatureCodeNotFound)
    ));
}

#[test]
fn the_library_opens_monitors() {
    let mut monitor = ddcutil::Monitor::new(nothing_searched());
    assert_eq!(monitor.display(Ok(None)), Err(DdcError::DisplayNotFound));
    assert_eq!(
        monitor.to_display(Err(DdcError::FeatureCodeNotFound)),
        Err(DdcError::FeatureCodeNotFound)
    );
    assert!(monitor.info().is_none());
    assert_eq!(monitor.to_display(Ok(Some(opened()))), Ok(()));
    assert_eq!(monitor.our_input(), Some(0x0f));
    assert_eq!(monitor.display(Ok(None)), Ok(&util_info("XB", "a")));
    assert_eq!(
        monitor.display(Err(DdcError::DisplayNotFound)),
        Err(DdcError::DisplayNotFound)
    );
    assert_eq!(monitor.to_display(Ok(None)), Ok(()));
    assert!(monitor.info().is_some());
}

#[test]
fn a_name_is_used_once() {
    let names: HashMap<u8, String> = [(3, "A".to_string()), (4, "B".to_string())].into();
    let values = Some(vec![3, 4, 3]);
    let monitor =
        ddcutil::Monitor::from_display_info(util_info("XB", "a"), values, names, None, None)
            .unwrap();
    assert_eq!(monitor.other_inputs(), vec![(3, "Unknown"), (4, "B")]);
}

#[test]
fn inputs_are_matched() {
    let monitor = opened();
    let search = |value, name: Option<&str>| ddcutil::SearchInput {
        value,
        name: name.map(String::from),
    };
    assert_eq!(monitor.match_input(&search(Some(0x0f), None)), Some(0x0f));
    assert_eq!(monitor.match_input(&search(None, Some("HDMI"))), Some(0x11));
    assert_eq!(monitor.match_input(&search(Some(0x0f), Some("HDMI"))), None);
    assert_eq!(monitor.match_input(&search(None, Some("Other"))), None);
    // any but ours
    let any = monitor.match_input(&search(None, None)).unwrap();
    assert!(any == 0x03 || any == 0x11);
    assert!(search(None, None).is_empty());
    assert!(!search(Some(1), None).is_empty());
}

fn inputs(host: Vec<ConfigDdcMethod>, guest: Vec<ConfigDdcMethod>) -> Inputs {
    Inputs::new(
        ConfigMonitor {
            id: Some("i".into()),
            manufacturer: Some("m".into()),
            model: None,
            serial: Some("s".into()),
            xrandr_name: Some("x".into()),
        },
        ConfigSource { value: None, name: Some(ConfigSourceName::HDMI1) },
        ConfigSource { value: None, name: None },
        host,
        guest,
    )
}

#[test]
fn inputs_start_from_the_configuration() {
    let inputs = inputs(vec![], vec![]);
    assert_eq!(inputs.input_host, Some(0x11));
    assert_eq!(inputs.input_guest, None);
    assert!(!inputs.showing_guest());
    assert_eq!(
        inputs.monitor,
        SearchDisplay {
            backend_id: Some("i".into()),
            manufacturer_id: Some("m".into()),
            model_name: None,
            serial_number: Some("s".into()),
            path: None,
        }
    );
    assert_eq!(inputs.wants(), Wants { host: false, guest: true });
    let bare = convert_display(ConfigMonitor {
        id: None,
        manufacturer: None,
        model: Some("m".into()),
        serial: None,
        xrandr_name: None,
    });
    assert_eq!(bare.model_name.as_deref(), Some("m"));
}

#[test]
fn missing_inputs_are_filled_in() {
    let mut known = inputs(vec![], vec![]);
    known.fill(None, Some(vec![0x11, 0x0f]));
    assert_eq!((known.input_host, known.input_guest), (Some(0x11), Some(0x0f)));
    known.fill(Some(1), Some(vec![2]));
    assert_eq!((known.input_host, known.input_guest), (Some(0x11), Some(0x0f)));
    let mut unknown = inputs(vec![], vec![]);
    unknown.input_host = None;
    unknown.fill(Some(0x12), Some(vec![0x12]));
    assert_eq!((unknown.input_host, unknown.input_guest), (Some(0x12), None));
    // the source of the host is kept before the others are asked for
    let mut asked = inputs(vec![], vec![]);
    asked.input_host = None;
    asked.fill(None, Some(vec![0x12]));
    assert_eq!((asked.input_host, asked.input_guest), (None, None));
    asked.fill(Some(0x12), None);
    assert_eq!((asked.input_host, asked.input_guest), (Some(0x12), None));
    asked.fill(None, Some(vec![0x12, 0x0f]));
    assert_eq!((asked.input_host, asked.input_guest), (Some(0x12), Some(0x0f)));
}

#[test]
fn sources_are_put_into_arguments() {
    let map = |s: &str, input| Inputs::map_input_arg(s, input, true);
    assert_eq!(map("{}", Some(17)), Ok("17".to_string()));
    assert_eq!(map("{}", Some(0)), Ok("0".to_string()));
    assert_eq!(map("{}", Some(255)), Ok("255".to_string()));
    assert_eq!(map("{:x}", Some(0x0f)), Ok("0f".to_string()));
    assert_eq!(map("0x{:x}", Some(0xab)), Ok("0xab".to_string()));
    assert_eq!(map("{} ", Some(1)), Ok("{} ".to_string()));
    assert_eq!(map("x", None), Ok("x".to_string()));
    assert_eq!(map("{}", None), Err(InputsError::SourceNotFound { host: true }));
    let args = vec!["a".to_string(), "{:x}".to_string()];
    assert_eq!(
        Inputs::map_input_args(&args, Some(3), false),
        Ok(vec!["a".to_string(), "03".to_string()])
    );
    assert_eq!(
        Inputs::map_input_args(&args, None, false),
        Err(InputsError::SourceNotFound { host: false })
    );
}

#[test]
fn showing_follows_the_methods() {
    let args = || vec!["switch".to_string(), "{}".to_string()];
    let mut inputs = inputs(
        vec![ConfigDdcMethod::Exec(args())],
        vec![
            ConfigDdcMethod::GuestWait,
            ConfigDdcMethod::Ddc,
            ConfigDdcMethod::GuestExec(args()),
        ],
    );
    // the host is shown already
    assert!(inputs.show_host().is_empty());
    let actions = inputs.show_guest();
    assert_eq!(actions.len(), 3);
    assert!(matches!(actions[0], ShowAction::DetectGuest));
    assert!(matches!(
        actions[1],
        ShowAction::SetInput {
            method: ConfigDdcMethod::Ddc,
            input: Err(InputsError::SourceNotFound { host: false })
        }
    ));
    assert!(matches!(
        actions[2],
        ShowAction::GuestExec(Err(InputsError::SourceNotFound { host: false }))
    ));
    assert!(!inputs.showing_guest());
    inputs.set_shown(false);
    assert!(inputs.showing_guest());
    assert!(inputs.show(false).is_empty());
    let actions = inputs.show(true);
    match &actions[..] {
        [ShowAction::Exec(Ok(args))] => assert_eq!(*args, vec!["switch", "17"]),
        _ => panic!("unexpected actions"),
    }
    inputs.set_shown(true);
    assert!(!inputs.showing_guest());
    inputs.input_guest = Some(0x0f);
    assert!(matches!(inputs.show_guest()[1], ShowAction::SetInput { input: Ok(0x0f), .. }));
    // a forced show switches again
    inputs.set_shown(false);
    assert!(inputs.show(false).is_empty());
    assert_eq!(inputs.show_forced(false).len(), 3);
    assert_eq!(inputs.show_forced(true).len(), 1);
}

#[test]
fn a_source_is_set_by_its_method() {
    let inputs = inputs(
        vec![],
        vec![ConfigDdcMethod::Ddc, ConfigDdcMethod::Libddcutil, ConfigDdcMethod::Ddcutil],
    );
    let actions = inputs.show_guest();
    assert!(matches!(actions[0], ShowAction::SetInput { method: ConfigDdcMethod::Ddc, .. }));
    assert!(matches!(actions[1], ShowAction::SetInput { method: ConfigDdcMethod::Libddcutil, .. }));
    assert!(matches!(actions[2], ShowAction::SetInput { method: ConfigDdcMethod::Ddcutil, .. }));
}

#[test]
fn a_search_may_find_no_monitor() {
    let mut slot: Option<u8> = None;
    assert_eq!(Inputs::ddc_monitor(&mut slot, None), Err(InputsError::MonitorNotFound));
    assert_eq!(slot, None);
    *Inputs::ddc_monitor(&mut slot, Some(3)).unwrap() += 1;
    assert_eq!(slot, Some(4));
    // the one that is connected to stays
    assert_eq!(Inputs::ddc_monitor(&mut slot, None), Ok(&mut 4));
    assert_eq!(Inputs::ddc_monitor(&mut slot, Some(9)), Ok(&mut 4));
    assert_eq!(slot, Some(4));
}

#[test]
fn not_every_method_gets_at_the_monitor() {
    let connect = Inputs::ddc_connect;
    assert_eq!(connect(true, &ConfigDdcMethod::Ddcutil), Ok(Connect::Connected));
    assert_eq!(connect(false, &ConfigDdcMethod::Ddc), Ok(Connect::Search));
    assert_eq!(
        connect(false, &ConfigDdcMethod::Libddcutil),
        Err(InputsError::LibddcutilMissing)
    );
    assert_eq!(connect(false, &ConfigDdcMethod::Ddcutil), Err(InputsError::DdcutilUnimplemented));
}

#[test]
fn input_errors_have_messages() {
    let message = |e: InputsError| e.message();
    assert_eq!(
        message(InputsError::SourceNotFound { host: true }),
        "DDC host input source not found"
    );
    assert_eq!(
        message(InputsError::SourceNotFound { host: false }),
        "DDC guest input source not found"
    );
    assert_eq!(message(InputsError::LibddcutilMissing), "Not compiled for libddcutil");
    assert_eq!(message(InputsError::DdcutilUnimplemented), "ddcutil CLI support unimplemented");
    assert_eq!(message(InputsError::MonitorNotFound), "DDC monitor not found");
}
