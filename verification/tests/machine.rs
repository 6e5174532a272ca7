use screenstub::config::ConfigInputEvent;
use screenstub::error::Error;
use screenstub::exec::{exec, exit_status_error, Command, ExecError};
use screenstub::fuse::Fuse;
use screenstub::grab::GrabEvdev;
use screenstub::input::{EventKind, InputEvent};
use screenstub::qemu::{
    AddAction, Connect, DeviceAdd, ExecStep, ListOutcome, Qemu, QemuError, QmpEvent, EXEC_DELAY,
    SHUTDOWN_TIMEOUT,
};
use screenstub::qemucomm;
use screenstub::qemucomm::{CommError, ConfigQemuComm, ConfigQemuDriver, QemuShutdownMode};
use screenstub::qmp::{base64, base64_opt};
use screenstub::qmp::{
    GuestExec, GuestExecResponse, GuestExecStatus, QapiCommand,
};
use screenstub::retry::{Retry, RetryStep};
use screenstub::spawner::Spawner;
use screenstub::uinput::InputId;
use screenstub::unzip::{Either, Polled, Step, Unzip, UnzipInner, UnzipStream};

fn strings(words: &[&str]) -> Vec<String> {
    words.iter().map(|w| w.to_string()).collect()
}

#[test]
fn connections_to_the_machine() {
    let qemu = Qemu::new(Some("/qmp".into()), None);
    assert_eq!(qemu.connect_qmp(true), Ok(Connect::Reuse));
    assert_eq!(qemu.connect_qmp(false), Ok(Connect::Open("/qmp".into())));
    assert_eq!(qemu.connect_qga(), Err(QemuError::QgaNotConfigured));
    let agent = Qemu::new(None, Some("/qga".into()));
    assert_eq!(agent.connect_qmp(false), Err(QemuError::QmpNotConfigured));
    assert_eq!(agent.connect_qga(), Ok("/qga".into()));
    assert!(Qemu::keeps_connection(false));
    assert!(!Qemu::keeps_connection(true));
}

fn device(id: Option<&str>) -> DeviceAdd {
    DeviceAdd {
        driver: "usb-mouse".into(),
        id: id.map(String::from),
        bus: None,
        arguments: vec![],
    }
}

#[test]
fn a_device_is_added_where_none_is() {
    let (run, action) = Qemu::device_add(&device(Some("m"))).unwrap();
    assert_eq!(action, AddAction::List { path: "/machine/peripheral/m".into() });
    assert_eq!(run.listed(ListOutcome::NotFound), Ok(AddAction::Add));
    assert_eq!(run.listed(ListOutcome::Failed), Err(QemuError::Failed));
    assert_eq!(run.listed(ListOutcome::Found), Ok(AddAction::Delete { id: "m".into() }));
    assert!(matches!(Qemu::device_add(&device(None)), Err(QemuError::NoId)));
}

#[test]
fn an_old_device_has_to_be_gone() {
    let gone = |id: &str| QmpEvent::DeviceDeleted { device: Some(id.into()) };
    let start = || Qemu::device_add(&device(Some("m"))).unwrap().0;

    let mut run = start();
    assert_eq!(run.deletion(true), Ok(AddAction::Wait));
    assert_eq!(run.event(Some(&QmpEvent::Other)), Ok(AddAction::Wait));
    assert_eq!(run.event(Some(&gone("other"))), Ok(AddAction::Wait));
    assert_eq!(
        run.event(Some(&QmpEvent::DeviceDeleted { device: None })),
        Ok(AddAction::Wait)
    );
    assert_eq!(run.event(Some(&gone("m"))), Ok(AddAction::Add));

    // the other way round
    let mut run = start();
    assert_eq!(run.event(Some(&gone("m"))), Ok(AddAction::Wait));
    // once the device is gone, events are of no account
    assert_eq!(run.event(Some(&QmpEvent::Other)), Ok(AddAction::Wait));
    assert_eq!(run.event(None), Ok(AddAction::Wait));
    assert_eq!(run.deletion(true), Ok(AddAction::Add));

    let mut run = start();
    assert_eq!(run.deletion(false), Err(QemuError::Failed));
    assert_eq!(run.event(None), Err(QemuError::NotDeleted));
}

#[test]
fn programs_run_in_the_guest() {
    let command = Qemu::guest_exec(&strings(&["ls", "-l", "/"]));
    assert_eq!(command.path, "ls");
    assert_eq!(command.arg, strings(&["-l", "/"]));
    assert!(command.capture_output);
    assert_eq!(Qemu::guest_exec_(true), ExecStep::Done);
    assert_eq!(Qemu::guest_exec_(false), ExecStep::AskAgain { delay: 100 });
    assert_eq!(EXEC_DELAY, 100);
}

#[test]
fn a_shutdown_needs_no_answer() {
    assert_eq!(Qemu::guest_shutdown::<u8>(None), Ok(()));
    assert_eq!(Qemu::guest_shutdown::<u8>(Some(Ok(()))), Ok(()));
    assert_eq!(Qemu::guest_shutdown::<u8>(Some(Err(3))), Err(3));
    assert_eq!(SHUTDOWN_TIMEOUT, 1000);
}

#[test]
fn machine_errors_have_messages() {
    assert_eq!(QemuError::QmpNotConfigured.message(), "QMP socket not configured");
    assert_eq!(QemuError::QgaNotConfigured.message(), "QGA socket not configured");
    assert_eq!(QemuError::NoId.message(), "device_add id not found");
    assert_eq!(QemuError::NotDeleted.message(), "Expected DEVICE_DELETED event");
    assert_eq!(QemuError::Failed.message(), "QMP command failed");
    assert_eq!(CommError::AgentNotProvided.message(), "QEMU Guest Agent socket not provided");
    assert_eq!(CommError::QmpNotProvided.message(), "QEMU QMP socket not provided");
}

fn comm(driver: ConfigQemuDriver) -> qemucomm::Qemu {
    qemucomm::Qemu::new(ConfigQemuComm::Qemucomm, driver, Some("/q".into()), Some("/g".into()))
}

#[test]
fn the_program_is_run_for_the_agent() {
    let qemu = comm(ConfigQemuDriver::Virtio);
    let argv = |words: &[&str]| Ok(Some(strings(words)));
    assert_eq!(
        qemu.guest_exec(&strings(&["ls", "-l"])),
        argv(&["qemucomm", "-g", "/g", "exec", "-w", "ls", "-l"])
    );
    assert_eq!(qemu.guest_info(), argv(&["qemucomm", "-g", "/g", "info"]));
    for (mode, word) in [
        (QemuShutdownMode::Shutdown, "ignore"),
        (QemuShutdownMode::Reboot, "-r"),
        (QemuShutdownMode::Halt, "-h"),
    ] {
        assert_eq!(
            qemu.guest_shutdown(mode),
            argv(&["qemucomm", "-g", "/g", "shutdown", word])
        );
    }
}

#[test]
fn the_program_is_run_for_the_machine() {
    let argv = |words: &[&str]| Ok(Some(strings(words)));
    let virtio = comm(ConfigQemuDriver::Virtio);
    let linux = comm(ConfigQemuDriver::InputLinux);
    assert_eq!(
        virtio.add_evdev("id", "/dev/e"),
        argv(&["qemucomm", "-q", "/q", "add_device", "virtio-input-host", "id", "evdev=/dev/e"])
    );
    assert_eq!(
        linux.add_evdev("id", "/dev/e"),
        argv(&["qemucomm", "-q", "/q", "add_object", "input-linux", "id", "evdev=/dev/e"])
    );
    assert_eq!(
        linux.add_object("id", "drv", &strings(&["a=b"])),
        argv(&["qemucomm", "-q", "/q", "add_object", "drv", "id", "a=b"])
    );
    assert_eq!(virtio.remove_evdev("id"), argv(&["qemucomm", "-q", "/q", "del_device", "id"]));
    assert_eq!(linux.remove_evdev("id"), argv(&["qemucomm", "-q", "/q", "del_object", "id"]));
    assert_eq!(linux.remove_object("x"), argv(&["qemucomm", "-q", "/q", "del_object", "x"]));
    assert_eq!(linux.remove_device("x"), argv(&["qemucomm", "-q", "/q", "del_device", "x"]));
    assert_eq!(virtio.set_is_mouse(true), vec![]);
    let unreachable = qemucomm::Qemu { comm: ConfigQemuComm::QMP, ..comm(ConfigQemuDriver::Virtio) };
    assert_eq!(unreachable.set_is_mouse(false), vec![]);
    assert_eq!(
        linux.set_is_mouse(true),
        vec![
            argv(&["qemucomm", "-q", "/q", "del_device", "screenstub-usbtablet"]),
            argv(&["qemucomm", "-q", "/q", "add_device", "usb-mouse", "screenstub-usbmouse"]),
        ]
    );
    assert_eq!(
        linux.set_is_mouse(false),
        vec![
            argv(&["qemucomm", "-q", "/q", "del_device", "screenstub-usbmouse"]),
            argv(&["qemucomm", "-q", "/q", "add_device", "usb-tablet", "screenstub-usbtablet"]),
        ]
    );
}

#[test]
fn the_program_needs_a_socket() {
    let bare =
        qemucomm::Qemu::new(ConfigQemuComm::Qemucomm, ConfigQemuDriver::Virtio, None, None);
    assert_eq!(bare.guest_info(), Err(CommError::AgentNotProvided));
    assert_eq!(bare.guest_exec(&vec![]), Err(CommError::AgentNotProvided));
    assert_eq!(bare.guest_shutdown(QemuShutdownMode::Halt), Err(CommError::QmpNotProvided));
    assert_eq!(bare.remove_device("x"), Err(CommError::QmpNotProvided));
    let none = qemucomm::Qemu::new(ConfigQemuComm::Nothing, ConfigQemuDriver::Virtio, None, None);
    assert_eq!(none.guest_info(), Ok(None));
    assert_eq!(none.remove_device("x"), Ok(None));
}

#[test]
fn bytes_are_written_as_text() {
    assert_eq!(base64::serialize(b"hello"), "aGVsbG8=");
    assert_eq!(base64::serialize(&[]), "");
    assert_eq!(base64::serialize(&[0xfb, 0xff]), "+/8=");
    assert_eq!(base64::deserialize("aGVsbG8="), Ok(b"hello".to_vec()));
    let all: Vec<u8> = (0..=255).collect();
    assert_eq!(base64::deserialize(&base64::serialize(&all)), Ok(all.clone()));
    assert_eq!(base64_opt::serialize(&Some(b"hello".to_vec())), "aGVsbG8=");
    assert_eq!(base64_opt::deserialize(Some("aGVsbG8=")), Ok(Some(b"hello".to_vec())));
    assert_eq!(base64_opt::deserialize(None), Ok(None));
}

#[test]
fn texts_that_are_no_base64() {
    let bad = base64::Base64Error::InvalidValue;
    assert_eq!(base64::deserialize("a?=="), Err(bad));
    assert_eq!(base64::deserialize("aGVsbG9="), Err(bad));
    assert_eq!(
        base64::deserialize("aGVsb"),
        Err(base64::Base64Error::InvalidLength { len: 5 })
    );
    assert_eq!(base64_opt::deserialize(Some("a?==")), Err(bad));
    assert_eq!(base64::de_err("x", base64::DecodeError::InvalidByte), bad);
    assert_eq!(base64::de_err("x", base64::DecodeError::InvalidLastSymbol), bad);
    assert_eq!(
        base64::de_err("é", base64::DecodeError::InvalidLength),
        base64::Base64Error::InvalidLength { len: 2 }
    );
}

#[test]
fn commands_of_the_agent() {
    assert_eq!(GuestExec::name(), "guest-exec");
    assert_eq!(GuestExecStatus::name(), "guest-exec-status");
    assert_eq!(GuestExecStatus::from(GuestExecResponse { pid: 7 }), GuestExecStatus { pid: 7 });
    assert_eq!(GuestExecStatus::default().pid, 0);
    let exec = GuestExec::default();
    assert!(exec.path.is_empty() && exec.arg.is_empty() && exec.capture_output.is_none());
}

#[test]
fn programs_are_named_by_their_arguments() {
    let command = exec(strings(&["ls", "-l", "/"])).into_command();
    assert_eq!(
        command,
        Ok(Command { program: "ls".into(), args: strings(&["-l", "/"]) })
    );
    assert_eq!(exec(vec![]).into_command(), Err(ExecError::MissingCommand));
    assert_eq!(exit_status_error(true, Some(0)), Ok(()));
    assert_eq!(exit_status_error(false, Some(-3)), Err(ExecError::Exited(-3)));
    assert_eq!(exit_status_error(false, None), Err(ExecError::Failed));
}

#[test]
fn errors_have_messages() {
    assert_eq!(ExecError::MissingCommand.message(), "Missing exec command");
    assert_eq!(ExecError::Exited(120).message(), "process exited with code 120");
    assert_eq!(
        ExecError::Exited(i32::MIN).message(),
        "process exited with code -2147483648"
    );
    assert_eq!(ExecError::Failed.message(), "process exited with a failure");
    assert_eq!(
        Error::from_exit_status(false, Some(1)).unwrap_err().message(),
        "IO error: process exited with code 1"
    );
    assert_eq!(Error::from_exit_status(true, None), Ok(()));
    assert_eq!(Error::MutexPoisoned("x".into()).message(), "Mutex poisoned: x");
    assert_eq!(Error::DdcNotFound.message(), "DDC monitor not found");
    assert_eq!(Error::Exit.message(), "Event loop exited");
}

#[test]
fn attempts_are_made_again() {
    let mut retry = Retry::new(2);
    assert_eq!(retry.attempted::<u8, u8>(Err(1)), RetryStep::Again);
    assert_eq!(retry.attempted::<u8, u8>(Ok(5)), RetryStep::Done(Ok(5)));
    assert_eq!(retry.attempted::<u8, u8>(Err(2)), RetryStep::Again);
    assert_eq!(retry.attempted::<u8, u8>(Err(3)), RetryStep::Done(Err(3)));
    assert_eq!(Retry::new(0).attempted::<u8, u8>(Err(4)), RetryStep::Done(Err(4)));
}

#[test]
fn tasks_are_waited_for_in_rounds() {
    let mut spawner = Spawner::new();
    assert_eq!(spawner.next_round(), None);
    spawner.spawn(1);
    spawner.spawn(2);
    assert_eq!(spawner.next_round(), Some(vec![1, 2]));
    spawner.spawn(3);
    assert_eq!(spawner.next_round(), Some(vec![3]));
    assert_eq!(spawner.next_round(), None);
}

#[test]
fn grabbed_devices_have_identities() {
    let id = |vendor| InputId { bustype: 3, vendor, product: 1, version: 1 };
    let grab = GrabEvdev::new(
        vec![(id(1), 'a'), (id(2), 'b'), (id(1), 'c')],
        &vec![ConfigInputEvent::Key],
    );
    let mut devices: Vec<char> = grab.evdevs().into_iter().copied().collect();
    devices.sort();
    assert_eq!(devices, vec!['b', 'c']);
    assert_eq!(grab.devices[&0x0003_0001_0001_0001], 'c');
    assert_eq!(grab.devices[&0x0003_0002_0001_0001], 'b');
    assert!(!grab.forwards(&InputEvent::new(EventKind::Key, 30, 1)));
    assert!(grab.forwards(&InputEvent::new(EventKind::Key, 0x110, 1)));
}

#[test]
fn an_ended_stream_is_let_go() {
    let mut fuse = Fuse::new(5);
    assert_eq!(fuse.inner(), Some(&5));
    *fuse.inner_mut().unwrap() = 6;
    let inner = fuse.poll().unwrap();
    assert_eq!(inner, 6);
    fuse.polled(inner, false);
    assert_eq!(fuse.inner(), Some(&6));
    let inner = fuse.poll().unwrap();
    fuse.polled(inner, true);
    assert_eq!(fuse.inner(), None);
    assert_eq!(fuse.poll(), None);
    assert!(fuse.fuse_inner());

    let mut idle = Fuse::new(1);
    assert!(!idle.fuse_inner());
    assert!(idle.inner_mut().is_none());
    assert_eq!(Fuse::new(9).into_inner(), Some(9));
}

fn pairs() -> (Unzip, UnzipStream, UnzipInner<u8, char, &'static str>) {
    Unzip::new()
}

#[test]
fn pairs_are_read_as_two_streams() {
    let (a, b, mut u) = pairs();
    let mut source = vec![(1, 'a'), (2, 'b'), (3, 'c')].into_iter();
    let mut firsts = Vec::new();
    let mut seconds = Vec::new();
    // the first stream is polled twice as often
    for turn in 0..9 {
        if turn % 3 < 2 {
            let polled = match a.poll(&mut u) {
                Step::PollPairs => a.polled(&mut u, source.next().map_or(Polled::End, Polled::Item)).0,
                Step::Done { polled, .. } => polled,
            };
            if let Polled::Item(item) = polled {
                firsts.push(item);
            }
        } else {
            let polled = match b.poll(&mut u) {
                Step::PollPairs => b.polled(&mut u, source.next().map_or(Polled::End, Polled::Item)).0,
                Step::Done { polled, .. } => polled,
            };
            if let Polled::Item(item) = polled {
                seconds.push(item);
            }
        }
        assert!(firsts.len() <= seconds.len() + 1 && seconds.len() <= firsts.len() + 1);
    }
    assert_eq!(firsts, vec![1, 2, 3]);
    assert_eq!(seconds, vec!['a', 'b', 'c']);
}

#[test]
fn a_waiting_stream_is_notified() {
    let (a, b, mut u) = pairs();
    assert!(matches!(b.poll(&mut u), Step::PollPairs));
    assert!(matches!(b.polled(&mut u, Polled::NotReady), (Polled::NotReady, false)));
    assert!(matches!(a.poll(&mut u), Step::PollPairs));
    assert!(matches!(a.polled(&mut u, Polled::Item((1, 'a'))), (Polled::Item(1), true)));
    assert!(matches!(u.next, Some(Either::B('a'))));
    assert!(matches!(a.poll(&mut u), Step::Done { polled: Polled::NotReady, notify: false }));
    assert!(matches!(b.poll(&mut u), Step::Done { polled: Polled::Item('a'), notify: true }));
}

#[test]
fn the_end_reaches_both_streams() {
    let (a, b, mut u) = pairs();
    assert!(matches!(a.poll(&mut u), Step::PollPairs));
    assert!(matches!(a.polled(&mut u, Polled::End), (Polled::End, false)));
    assert!(matches!(a.poll(&mut u), Step::Done { polled: Polled::NotReady, .. }));
    assert!(matches!(b.poll(&mut u), Step::Done { polled: Polled::End, .. }));
    assert!(matches!(b.poll(&mut u), Step::Done { polled: Polled::NotReady, .. }));
}

#[test]
fn an_error_reaches_the_first_stream() {
    let (a, b, mut u) = pairs();
    assert!(matches!(b.poll(&mut u), Step::PollPairs));
    assert!(matches!(b.polled(&mut u, Polled::Failed("x")), (Polled::End, false)));
    assert!(matches!(b.poll(&mut u), Step::Done { polled: Polled::NotReady, .. }));
    assert!(matches!(a.poll(&mut u), Step::Done { polled: Polled::Failed("x"), .. }));
    assert!(matches!(a.poll(&mut u), Step::Done { polled: Polled::NotReady, .. }));

    let (a, b, mut u) = pairs();
    assert!(matches!(a.poll(&mut u), Step::PollPairs));
    assert!(matches!(a.polled(&mut u, Polled::Failed("y")), (Polled::Failed("y"), false)));
    assert!(matches!(b.poll(&mut u), Step::Done { polled: Polled::NotReady, .. }));
    assert!(matches!(a.poll(&mut u), Step::Done { polled: Polled::End, .. }));
}
