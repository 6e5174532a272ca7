//! Commands to the machine by way of the qemucomm program.

use crate::text::copy_strings;
use vstd::prelude::*;

verus! {

/// How the machine is reached.
#[derive(Debug, Clone, Copy, PartialEq, Eq, Structural)]
pub enum ConfigQemuComm {
    Nothing,
    Qemucomm,
    QMP,
    Console,
}

/// How input devices are attached.
#[derive(Debug, Clone, Copy, PartialEq, Eq, Structural)]
pub enum ConfigQemuDriver {
    Virtio,
    InputLinux,
}

#[derive(Debug, Clone, Copy, PartialEq, Eq, Structural)]
pub enum QemuShutdownMode {
    Shutdown,
    Reboot,
    Halt,
}

#[derive(Debug, Clone, Copy, PartialEq, Eq, Structural)]
pub enum CommError {
    AgentNotProvided,
    QmpNotProvided,
}

impl CommError {
    pub fn message(&self) -> (message: &'static str)
        ensures
            message@ == match *self {
                CommError::AgentNotProvided => "QEMU Guest Agent socket not provided"@,
                CommError::QmpNotProvided => "QEMU QMP socket not provided"@,
            },
    {
        match *self {
            CommError::AgentNotProvided => "QEMU Guest Agent socket not provided",
            CommError::QmpNotProvided => "QEMU QMP socket not provided",
        }
    }
}

/// The machine, by the sockets of its control protocol and of the agent.
#[derive(Debug)]
pub struct Qemu {
    pub comm: ConfigQemuComm,
    pub driver: ConfigQemuDriver,
    pub qmp: Option<String>,
    pub ga: Option<String>,
}

/// The program to run; none where nothing is to be done.
pub type Run = Result<Option<Vec<String>>, CommError>;

/// Some strings by their characters.
pub open spec fn texts(strings: Seq<String>) -> Seq<Seq<char>> {
    strings.map_values(|s: String| s@)
}

/// Whether a program is run with a socket and further arguments. Nothing is
/// run where the machine is not reached, and a socket has to be there.
pub open spec fn runs(
    run: Run,
    comm: ConfigQemuComm,
    socket: Option<String>,
    missing: CommError,
    option: Seq<char>,
    args: Seq<Seq<char>>,
) -> bool {
    match comm {
        ConfigQemuComm::Nothing => run == Ok::<Option<Vec<String>>, CommError>(None),
        _ => match socket {
            Some(socket) => run matches Ok(Some(argv)) && texts(argv@) == seq![
                "qemucomm"@,
                option,
                socket@,
            ] + args,
            None => run == Err::<Option<Vec<String>>, CommError>(missing),
        },
    }
}

fn run(
    comm: ConfigQemuComm,
    socket: &Option<String>,
    missing: CommError,
    option: &str,
    args: Vec<String>,
) -> (r: Run)
    requires
        comm is Nothing || comm is Qemucomm,
    ensures
        runs(r, comm, *socket, missing, option@, texts(args@)),
{
    match comm {
        ConfigQemuComm::Nothing => Ok(None),
        _ => match socket {
            Some(socket) => {
                let mut argv: Vec<String> = Vec::new();
                let mut args = args;
                let ghost more = args@;
                argv.push(String::from_str("qemucomm"));
                argv.push(String::from_str(option));
                argv.push(socket.clone());
                argv.append(&mut args);
                assert(texts(argv@) =~= seq!["qemucomm"@, option@, socket@] + texts(more));
                Ok(Some(argv))
            },
            None => Err(missing),
        },
    }
}

fn words2(a: &str, b: &str) -> (words: Vec<String>)
    ensures
        texts(words@) == seq![a@, b@],
{
    let mut words: Vec<String> = Vec::new();
    words.push(String::from_str(a));
    words.push(String::from_str(b));
    assert(texts(words@) =~= seq![a@, b@]);
    words
}

fn words3(a: &str, b: &str, c: &str, more: &Vec<String>) -> (words: Vec<String>)
    ensures
        texts(words@) == seq![a@, b@, c@] + texts(more@),
{
    let mut words = words2(a, b);
    assert(seq![a@, b@].len() == 2 && texts(words@).len() == words@.len());
    assert(texts(words@)[0] == words@[0]@ && texts(words@)[1] == words@[1]@);
    words.push(String::from_str(c));
    let mut rest = copy_strings(more);
    words.append(&mut rest);
    assert(texts(words@) =~= seq![a@, b@, c@] + texts(more@));
    words
}

impl Qemu {
    /// Whether the machine is reached in a way that there is.
    pub open spec fn is_reachable(self) -> bool {
        self.comm is Nothing || self.comm is Qemucomm
    }

    pub fn new(
        comm: ConfigQemuComm,
        driver: ConfigQemuDriver,
        qmp: Option<String>,
        ga: Option<String>,
    ) -> (qemu: Qemu)
        ensures
            qemu == (Qemu { comm, driver, qmp, ga }),
    {
        Qemu { comm, driver, qmp, ga }
    }

    /// Runs a program in the guest, and waits for it.
    pub fn guest_exec(&self, args: &Vec<String>) -> (r: Run)
        requires
            self.is_reachable(),
        ensures
            runs(
                r,
                self.comm,
                self.ga,
                CommError::AgentNotProvided,
                "-g"@,
                seq!["exec"@, "-w"@] + texts(args@),
            ),
    {
        let mut words = words2("exec", "-w");
        let mut rest = copy_strings(args);
        words.append(&mut rest);
        assert(texts(words@) =~= seq!["exec"@, "-w"@] + texts(args@));
        run(self.comm, &self.ga, CommError::AgentNotProvided, "-g", words)
    }

    /// Asks the agent about itself.
    pub fn guest_info(&self) -> (r: Run)
        requires
            self.is_reachable(),
        ensures
            runs(r, self.comm, self.ga, CommError::AgentNotProvided, "-g"@, seq!["info"@]),
    {
        let mut words: Vec<String> = Vec::new();
        words.push(String::from_str("info"));
        assert(texts(words@) =~= seq!["info"@]);
        run(self.comm, &self.ga, CommError::AgentNotProvided, "-g", words)
    }

    /// Attaches a kernel device.
    pub fn add_evdev(&self, id: &str, device: &str) -> (r: Run)
        requires
            self.is_reachable(),
        ensures
            runs(
                r,
                self.comm,
                self.qmp,
                CommError::QmpNotProvided,
                "-q"@,
                match self.driver {
                    ConfigQemuDriver::Virtio => seq![
                        "add_device"@,
                        "virtio-input-host"@,
                        id@,
                        "evdev="@ + device@,
                    ],
                    ConfigQemuDriver::InputLinux => seq![
                        "add_object"@,
                        "input-linux"@,
                        id@,
                        "evdev="@ + device@,
                    ],
                },
            ),
    {
        let mut params: Vec<String> = Vec::new();
        params.push(String::from_str("evdev=").concat(device));
        assert(texts(params@) =~= seq!["evdev="@ + device@]);
        match self.driver {
            ConfigQemuDriver::Virtio => {
                assert(seq!["add_device"@, "virtio-input-host"@, id@] + seq!["evdev="@ + device@]
                    =~= seq!["add_device"@, "virtio-input-host"@, id@, "evdev="@ + device@]);
                self.add_device(id, "virtio-input-host", &params)
            },
            ConfigQemuDriver::InputLinux => {
                assert(seq!["add_object"@, "input-linux"@, id@] + seq!["evdev="@ + device@]
                    =~= seq!["add_object"@, "input-linux"@, id@, "evdev="@ + device@]);
                self.add_object(id, "input-linux", &params)
            },
        }
    }

    pub fn add_object(&self, id: &str, driver: &str, params: &Vec<String>) -> (r: Run)
        requires
            self.is_reachable(),
        ensures
            runs(
                r,
                self.comm,
                self.qmp,
                CommError::QmpNotProvided,
                "-q"@,
                seq!["add_object"@, driver@, id@] + texts(params@),
            ),
    {
        let words = words3("add_object", driver, id, params);
        run(self.comm, &self.qmp, CommError::QmpNotProvided, "-q", words)
    }

    pub fn add_device(&self, id: &str, driver: &str, params: &Vec<String>) -> (r: Run)
        requires
            self.is_reachable(),
        ensures
            runs(
                r,
                self.comm,
                self.qmp,
                CommError::QmpNotProvided,
                "-q"@,
                seq!["add_device"@, driver@, id@] + texts(params@),
            ),
    {
        let words = words3("add_device", driver, id, params);
        run(self.comm, &self.qmp, CommError::QmpNotProvided, "-q", words)
    }

    /// Detaches a kernel device.
    pub fn remove_evdev(&self, id: &str) -> (r: Run)
        requires
            self.is_reachable(),
        ensures
            runs(
                r,
                self.comm,
                self.qmp,
                CommError::QmpNotProvided,
                "-q"@,
                match self.driver {
                    ConfigQemuDriver::Virtio => seq!["del_device"@, id@],
                    ConfigQemuDriver::InputLinux => seq!["del_object"@, id@],
                },
            ),
    {
        match self.driver {
            ConfigQemuDriver::Virtio => self.remove_device(id),
            ConfigQemuDriver::InputLinux => self.remove_object(id),
        }
    }

    /// Has the guest go down.
    pub fn guest_shutdown(&self, mode: QemuShutdownMode) -> (r: Run)
        requires
            self.is_reachable(),
        ensures
            runs(
                r,
                self.comm,
                self.ga,
                CommError::QmpNotProvided,
                "-g"@,
                seq![
                    "shutdown"@,
                    match mode {
                        QemuShutdownMode::Shutdown => "ignore"@,
                        QemuShutdownMode::Reboot => "-r"@,
                        QemuShutdownMode::Halt => "-h"@,
                    },
                ],
            ),
    {
        let mode = match mode {
            QemuShutdownMode::Shutdown => "ignore",
            QemuShutdownMode::Reboot => "-r",
            QemuShutdownMode::Halt => "-h",
        };
        let words = words2("shutdown", mode);
        run(self.comm, &self.ga, CommError::QmpNotProvided, "-g", words)
    }

    pub fn remove_object(&self, id: &str) -> (r: Run)
        requires
            self.is_reachable(),
        ensures
            runs(
                r,
                self.comm,
                self.qmp,
                CommError::QmpNotProvided,
                "-q"@,
                seq!["del_object"@, id@],
            ),
    {
        let words = words2("del_object", id);
        run(self.comm, &self.qmp, CommError::QmpNotProvided, "-q", words)
    }

    pub fn remove_device(&self, id: &str) -> (r: Run)
        requires
            self.is_reachable(),
        ensures
            runs(
                r,
                self.comm,
                self.qmp,
                CommError::QmpNotProvided,
                "-q"@,
                seq!["del_device"@, id@],
            ),
    {
        let words = words2("del_device", id);
        run(self.comm, &self.qmp, CommError::QmpNotProvided, "-q", words)
    }

    /// Replaces the tablet by a mouse, or the mouse by a tablet: the programs
    /// to run one after another, whatever becomes of them. A virtio device is
    /// not replaced.
    pub fn set_is_mouse(&self, is_mouse: bool) -> (r: Vec<Run>)
        requires
            self.driver is InputLinux ==> self.is_reachable(),
        ensures
            self.driver is Virtio ==> r@.len() == 0,
            self.driver is InputLinux ==> {
                &&& r@.len() == 2
                &&& runs(
                    r@[0],
                    self.comm,
                    self.qmp,
                    CommError::QmpNotProvided,
                    "-q"@,
                    seq![
                        "del_device"@,
                        if is_mouse {
                            "screenstub-usbtablet"@
                        } else {
                            "screenstub-usbmouse"@
                        },
                    ],
                )
                &&& runs(
                    r@[1],
                    self.comm,
                    self.qmp,
                    CommError::QmpNotProvided,
                    "-q"@,
                    if is_mouse {
                        seq!["add_device"@, "usb-mouse"@, "screenstub-usbmouse"@]
                    } else {
                        seq!["add_device"@, "usb-tablet"@, "screenstub-usbtablet"@]
                    },
                )
            },
    {
        let mut r: Vec<Run> = Vec::new();
        match self.driver {
            ConfigQemuDriver::Virtio => {},
            ConfigQemuDriver::InputLinux => {
                let (new, new_driver, old_) = if is_mouse {
                    ("screenstub-usbmouse", "usb-mouse", "screenstub-usbtablet")
                } else {
                    ("screenstub-usbtablet", "usb-tablet", "screenstub-usbmouse")
                };
                let params: Vec<String> = Vec::new();
                r.push(self.remove_device(old_));
                let add = self.add_device(new, new_driver, &params);
                assert(seq!["add_device"@, new_driver@, new@] + texts(params@) =~= seq![
                    "add_device"@,
                    new_driver@,
                    new@,
                ]);
                r.push(add);
            },
        }
        r
    }
}

/// Whether the program is called with the socket behind its option, and then with
/// some words, each one in its place; or not at all where the machine is not to be
/// reached, and not without the socket.
pub open spec fn is_called_with(
    r: Run,
    comm: ConfigQemuComm,
    option: Seq<char>,
    socket: Option<String>,
    missing: CommError,
    words: Seq<Seq<char>>,
) -> bool {
    &&& comm is Nothing ==> r == Ok::<Option<Vec<String>>, CommError>(None)
    &&& !(comm is Nothing) && socket is None ==> r == Err::<Option<Vec<String>>, CommError>(missing)
    &&& !(comm is Nothing) && socket is Some ==> {
        &&& r is Ok && r->Ok_0 is Some
        &&& r->Ok_0->0@.len() == words.len() + 3
        &&& r->Ok_0->0@[0]@ == "qemucomm"@
        &&& r->Ok_0->0@[1]@ == option
        &&& r->Ok_0->0@[2]@ == socket->0@
        &&& forall|i: int| 0 <= i < words.len() ==> (#[trigger] r->Ok_0->0@[i + 3])@ == words[i]
    }
}

proof fn lemma_called_with(
    r: Run,
    comm: ConfigQemuComm,
    option: Seq<char>,
    socket: Option<String>,
    missing: CommError,
    words: Seq<Seq<char>>,
)
    requires
        runs(r, comm, socket, missing, option, words),
    ensures
        is_called_with(r, comm, option, socket, missing, words),
{
    if !(comm is Nothing) && socket is Some {
        let argv = r->Ok_0->0@;
        let all = seq!["qemucomm"@, option, socket->0@] + words;
        assert(texts(argv) == all);
        assert(texts(argv).len() == argv.len());
        assert(texts(argv)[0] == argv[0]@ && texts(argv)[1] == argv[1]@ && texts(argv)[2]
            == argv[2]@);
        assert forall|i: int| 0 <= i < words.len() implies (#[trigger] argv[i + 3])@
            == words[i] by {
            assert(texts(argv)[i + 3] == argv[i + 3]@);
            assert(all[i + 3] == words[i]);
        }
    }
}

/// The agent is reached by its own socket: a program of the guest is run with all of
/// its arguments and waited for, the agent is asked about itself, and the guest goes
/// down in the way that is asked for.
pub proof fn the_agent_is_called_by_its_socket(
    qemu: Qemu,
    args: Vec<String>,
    mode: QemuShutdownMode,
    r: Run,
)
    requires
        qemu.is_reachable(),
    ensures
        call_ensures(Qemu::guest_exec, (&qemu, &args), r) ==> is_called_with(
            r,
            qemu.comm,
            "-g"@,
            qemu.ga,
            CommError::AgentNotProvided,
            seq!["exec"@, "-w"@] + args@.map_values(|s: String| s@),
        ),
        call_ensures(Qemu::guest_info, (&qemu,), r) ==> is_called_with(
            r,
            qemu.comm,
            "-g"@,
            qemu.ga,
            CommError::AgentNotProvided,
            seq!["info"@],
        ),
        call_ensures(Qemu::guest_shutdown, (&qemu, mode), r) ==> is_called_with(
            r,
            qemu.comm,
            "-g"@,
            qemu.ga,
            CommError::QmpNotProvided,
            seq![
                "shutdown"@,
                if mode is Reboot {
                    "-r"@
                } else if mode is Halt {
                    "-h"@
                } else {
                    "ignore"@
                },
            ],
        ),
{
    if call_ensures(Qemu::guest_exec, (&qemu, &args), r) {
        lemma_called_with(
            r,
            qemu.comm,
            "-g"@,
            qemu.ga,
            CommError::AgentNotProvided,
            seq!["exec"@, "-w"@] + texts(args@),
        );
    }
    if call_ensures(Qemu::guest_info, (&qemu,), r) {
        lemma_called_with(
            r,
            qemu.comm,
            "-g"@,
            qemu.ga,
            CommError::AgentNotProvided,
            seq!["info"@],
        );
    }
    if call_ensures(Qemu::guest_shutdown, (&qemu, mode), r) {
        lemma_called_with(
            r,
            qemu.comm,
            "-g"@,
            qemu.ga,
            CommError::QmpNotProvided,
            seq![
                "shutdown"@,
                if mode is Reboot {
                    "-r"@
                } else if mode is Halt {
                    "-h"@
                } else {
                    "ignore"@
                },
            ],
        );
    }
}

/// Devices and objects are added to the machine, by their driver, their id and their
/// parameters, and taken from it by their id, over its own socket; a kernel device is
/// a device or an object as the driver has it, for adding and for taking alike.
pub proof fn the_machine_is_called_by_its_socket(
    qemu: Qemu,
    id: &str,
    driver: &str,
    params: Vec<String>,
    device: &str,
    r: Run,
)
    requires
        qemu.is_reachable(),
    ensures
        call_ensures(Qemu::add_object, (&qemu, id, driver, &params), r) ==> is_called_with(
            r,
            qemu.comm,
            "-q"@,
            qemu.qmp,
            CommError::QmpNotProvided,
            seq!["add_object"@, driver@, id@] + params@.map_values(|s: String| s@),
        ),
        call_ensures(Qemu::add_device, (&qemu, id, driver, &params), r) ==> is_called_with(
            r,
            qemu.comm,
            "-q"@,
            qemu.qmp,
            CommError::QmpNotProvided,
            seq!["add_device"@, driver@, id@] + params@.map_values(|s: String| s@),
        ),
        call_ensures(Qemu::remove_object, (&qemu, id), r) ==> is_called_with(
            r,
            qemu.comm,
            "-q"@,
            qemu.qmp,
            CommError::QmpNotProvided,
            seq!["del_object"@, id@],
        ),
        call_ensures(Qemu::remove_device, (&qemu, id), r) ==> is_called_with(
            r,
            qemu.comm,
            "-q"@,
            qemu.qmp,
            CommError::QmpNotProvided,
            seq!["del_device"@, id@],
        ),
        call_ensures(Qemu::add_evdev, (&qemu, id, device), r) ==> is_called_with(
            r,
            qemu.comm,
            "-q"@,
            qemu.qmp,
            CommError::QmpNotProvided,
            if qemu.driver is Virtio {
                seq!["add_device"@, "virtio-input-host"@, id@, "evdev="@ + device@]
            } else {
                seq!["add_object"@, "input-linux"@, id@, "evdev="@ + device@]
            },
        ),
        call_ensures(Qemu::remove_evdev, (&qemu, id), r) ==> is_called_with(
            r,
            qemu.comm,
            "-q"@,
            qemu.qmp,
            CommError::QmpNotProvided,
            seq![
                if qemu.driver is Virtio {
                    "del_device"@
                } else {
                    "del_object"@
                },
                id@,
            ],
        ),
{
    let missing = CommError::QmpNotProvided;
    if call_ensures(Qemu::add_object, (&qemu, id, driver, &params), r) {
        let words = seq!["add_object"@, driver@, id@] + texts(params@);
        lemma_called_with(r, qemu.comm, "-q"@, qemu.qmp, missing, words);
    }
    if call_ensures(Qemu::add_device, (&qemu, id, driver, &params), r) {
        let words = seq!["add_device"@, driver@, id@] + texts(params@);
        lemma_called_with(r, qemu.comm, "-q"@, qemu.qmp, missing, words);
    }
    if call_ensures(Qemu::remove_object, (&qemu, id), r) {
        let words = seq!["del_object"@, id@];
        lemma_called_with(r, qemu.comm, "-q"@, qemu.qmp, missing, words);
    }
    if call_ensures(Qemu::remove_device, (&qemu, id), r) {
        let words = seq!["del_device"@, id@];
        lemma_called_with(r, qemu.comm, "-q"@, qemu.qmp, missing, words);
    }
    if call_ensures(Qemu::add_evdev, (&qemu, id, device), r) {
        let words = if qemu.driver is Virtio {
            seq!["add_device"@, "virtio-input-host"@, id@, "evdev="@ + device@]
        } else {
            seq!["add_object"@, "input-linux"@, id@, "evdev="@ + device@]
        };
        lemma_called_with(r, qemu.comm, "-q"@, qemu.qmp, missing, words);
    }
    if call_ensures(Qemu::remove_evdev, (&qemu, id), r) {
        let words = seq![
            if qemu.driver is Virtio {
                "del_device"@
            } else {
                "del_object"@
            },
            id@,
        ];
        lemma_called_with(r, qemu.comm, "-q"@, qemu.qmp, missing, words);
    }
}

/// A mouse takes the place of the tablet, and a tablet that of the mouse: the one that
/// is there leaves first. A virtio device is left as it is.
pub proof fn mouse_and_tablet_take_turns(qemu: Qemu, is_mouse: bool, r: Vec<Run>)
    requires
        qemu.driver is InputLinux ==> qemu.is_reachable(),
        call_ensures(Qemu::set_is_mouse, (&qemu, is_mouse), r),
    ensures
        qemu.driver is Virtio ==> r@.len() == 0,
        qemu.driver is InputLinux ==> {
            &&& r@.len() == 2
            &&& is_called_with(
                r@[0],
                qemu.comm,
                "-q"@,
                qemu.qmp,
                CommError::QmpNotProvided,
                seq![
                    "del_device"@,
                    if is_mouse {
                        "screenstub-usbtablet"@
                    } else {
                        "screenstub-usbmouse"@
                    },
                ],
            )
            &&& is_called_with(
                r@[1],
                qemu.comm,
                "-q"@,
                qemu.qmp,
                CommError::QmpNotProvided,
                if is_mouse {
                    seq!["add_device"@, "usb-mouse"@, "screenstub-usbmouse"@]
                } else {
                    seq!["add_device"@, "usb-tablet"@, "screenstub-usbtablet"@]
                },
            )
        },
{
    if qemu.driver is InputLinux {
        lemma_called_with(
            r@[0],
            qemu.comm,
            "-q"@,
            qemu.qmp,
            CommError::QmpNotProvided,
            seq![
                "del_device"@,
                if is_mouse {
                    "screenstub-usbtablet"@
                } else {
                    "screenstub-usbmouse"@
                },
            ],
        );
        lemma_called_with(
            r@[1],
            qemu.comm,
            "-q"@,
            qemu.qmp,
            CommError::QmpNotProvided,
            if is_mouse {
                seq!["add_device"@, "usb-mouse"@, "screenstub-usbmouse"@]
            } else {
                seq!["add_device"@, "usb-tablet"@, "screenstub-usbtablet"@]
            },
        );
    }
}

} // verus!
