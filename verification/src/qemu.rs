//! Commands to the machine that runs the guest, and to the guest's agent.

use crate::text::same_text;
use vstd::prelude::*;

verus! {

/// The value of an argument of a device.
#[derive(Debug, PartialEq, Eq)]
pub enum Argument {
    Text(String),
    Flag(bool),
}

/// The command that gives the guest a device.
#[derive(Debug, PartialEq, Eq)]
pub struct DeviceAdd {
    pub driver: String,
    pub id: Option<String>,
    pub bus: Option<String>,
    pub arguments: Vec<(String, Argument)>,
}

impl DeviceAdd {
    /// Whether this adds a device without further arguments.
    pub open spec fn adds(self, driver: Seq<char>, id: Seq<char>) -> bool {
        &&& self.driver@ == driver
        &&& self.id matches Some(own) && own@ == id
        &&& self.bus is None
        &&& self.arguments@.len() == 0
    }
}

#[derive(Debug, Clone, Copy, PartialEq, Eq, Structural)]
pub enum QemuError {
    QmpNotConfigured,
    QgaNotConfigured,
    /// A device is to be added that has no id.
    NoId,
    /// The machine did not say that the old device is gone.
    NotDeleted,
    /// The machine gave an error, or the connection failed.
    Failed,
}

impl QemuError {
    pub fn message(&self) -> (message: &'static str)
        ensures
            message@ == match *self {
                QemuError::QmpNotConfigured => "QMP socket not configured"@,
                QemuError::QgaNotConfigured => "QGA socket not configured"@,
                QemuError::NoId => "device_add id not found"@,
                QemuError::NotDeleted => "Expected DEVICE_DELETED event"@,
                QemuError::Failed => "QMP command failed"@,
            },
    {
        match *self {
            QemuError::QmpNotConfigured => "QMP socket not configured",
            QemuError::QgaNotConfigured => "QGA socket not configured",
            QemuError::NoId => "device_add id not found",
            QemuError::NotDeleted => "Expected DEVICE_DELETED event",
            QemuError::Failed => "QMP command failed",
        }
    }
}

/// How to get a connection to the machine.
#[derive(Debug, PartialEq, Eq)]
pub enum Connect {
    /// Use the connection that there is.
    Reuse,
    /// Open one at a path.
    Open(String),
}

/// How a command that looks for a device turned out.
#[derive(Debug, Clone, Copy, PartialEq, Eq, Structural)]
pub enum ListOutcome {
    Found,
    NotFound,
    Failed,
}

/// An event of the machine.
#[derive(Debug, PartialEq, Eq)]
pub enum QmpEvent {
    DeviceDeleted { device: Option<String> },
    Other,
}

/// What to do next in order to add a device.
#[derive(Debug, PartialEq, Eq)]
pub enum AddAction {
    /// Look for the old device at a path.
    List { path: String },
    /// Delete the old device, and wait until it is gone.
    Delete { id: String },
    /// Wait for the next event.
    Wait,
    /// Wait for the deadline, and add the device.
    Add,
}

/// What the machine answers or says while a device is added: whether the old
/// device is there, whether the command that deletes it was taken, and an event
/// or the end of the events.
pub ghost enum AddNews {
    Listed(ListOutcome),
    Deletion(bool),
    Event(Option<QmpEvent>),
}

/// The addition of a device in place of one that may be there.
#[derive(Debug)]
pub struct DeviceAddRun {
    pub id: String,
    /// Whether the machine has taken the command that deletes the old device.
    pub deleted: bool,
    /// Whether the machine has said that the old device is gone.
    pub gone: bool,
}

/// The machine and the guest's agent.
#[derive(Debug)]
pub struct Qemu {
    pub socket_qmp: Option<String>,
    pub socket_qga: Option<String>,
}

/// A command that the guest's agent is to run.
#[derive(Debug, PartialEq, Eq)]
pub struct GuestExecCommand {
    pub path: String,
    pub arg: Vec<String>,
    pub capture_output: bool,
}

/// What to do once the agent has been asked how a command is doing.
#[derive(Debug, Clone, Copy, PartialEq, Eq, Structural)]
pub enum ExecStep {
    Done,
    /// Ask again after some milliseconds.
    AskAgain { delay: u64 },
}

/// How long to wait before the agent is asked again, in milliseconds.
pub const EXEC_DELAY: u64 = 100;

/// How long the agent has to answer a shutdown, in milliseconds.
pub const SHUTDOWN_TIMEOUT: u64 = 1000;

/// Where a device with an id is found.
pub open spec fn peripheral_path(id: Seq<char>) -> Seq<char> {
    "/machine/peripheral/"@ + id
}

impl Qemu {
    pub fn new(socket_qmp: Option<String>, socket_qga: Option<String>) -> (qemu: Qemu)
        ensures
            qemu.socket_qmp == socket_qmp,
            qemu.socket_qga == socket_qga,
    {
        Qemu { socket_qmp, socket_qga }
    }

    /// How to get a connection to the machine: the one that there is, where it
    /// is still in use.
    pub fn connect_qmp(&self, connected: bool) -> (connect: Result<Connect, QemuError>)
        ensures
            connected ==> connect == Ok::<Connect, QemuError>(Connect::Reuse),
            !connected ==> match self.socket_qmp {
                Some(path) => connect == Ok::<Connect, QemuError>(Connect::Open(path)),
                None => connect == Err::<Connect, QemuError>(QemuError::QmpNotConfigured),
            },
    {
        if connected {
            Ok(Connect::Reuse)
        } else {
            match self.connect_qmp_stream() {
                Ok(path) => Ok(Connect::Open(path)),
                Err(error) => Err(error),
            }
        }
    }

    /// Whether to keep a connection that was opened: where there is another one
    /// by now, that one is used.
    pub fn keeps_connection(connected: bool) -> (keep: bool)
        ensures
            keep == !connected,
    {
        !connected
    }

    fn connect_qmp_stream(&self) -> (path: Result<String, QemuError>)
        ensures
            path == match self.socket_qmp {
                Some(path) => Ok(path),
                None => Err(QemuError::QmpNotConfigured),
            },
    {
        match &self.socket_qmp {
            Some(path) => Ok(path.clone()),
            None => Err(QemuError::QmpNotConfigured),
        }
    }

    /// Where the guest's agent is.
    pub fn connect_qga(&self) -> (path: Result<String, QemuError>)
        ensures
            path == match self.socket_qga {
                Some(path) => Ok(path),
                None => Err(QemuError::QgaNotConfigured),
            },
    {
        match &self.socket_qga {
            Some(path) => Ok(path.clone()),
            None => Err(QemuError::QgaNotConfigured),
        }
    }

    /// Starts to add a device: looks whether one with its id is there.
    pub fn device_add(add: &DeviceAdd) -> (r: Result<(DeviceAddRun, AddAction), QemuError>)
        ensures
            add.id is None ==> r == Err::<(DeviceAddRun, AddAction), QemuError>(QemuError::NoId),
            add.id matches Some(id) ==> {
                &&& r matches Ok((run, AddAction::List { path }))
                &&& run.id == id
                &&& !run.deleted
                &&& !run.gone
                &&& path@ == peripheral_path(id@)
            },
    {
        match &add.id {
            Some(id) => {
                let path = String::from_str("/machine/peripheral/").concat(id.as_str());
                Ok(
                    (
                        DeviceAddRun { id: id.clone(), deleted: false, gone: false },
                        AddAction::List { path },
                    ),
                )
            },
            None => Err(QemuError::NoId),
        }
    }

    /// The command that the guest's agent is to run.
    pub fn guest_exec(args: &Vec<String>) -> (command: GuestExecCommand)
        requires
            args@.len() > 0,
        ensures
            command.path == args@[0],
            command.arg@ == args@.skip(1),
            command.capture_output,
    {
        let mut arg: Vec<String> = Vec::new();
        for i in 1..args.len()
            invariant
                args@.len() > 0,
                arg@ == args@.subrange(1, i as int),
        {
            arg.push(args[i].clone());
            assert(args@.subrange(1, i + 1) =~= args@.subrange(1, i as int).push(args@[i as int]));
        }
        assert(args@.subrange(1, args@.len() as int) =~= args@.skip(1));
        GuestExecCommand { path: args[0].clone(), arg, capture_output: true }
    }

    /// What to do once the agent has said whether a command has exited.
    pub fn guest_exec_(exited: bool) -> (step: ExecStep)
        ensures
            step == if exited {
                ExecStep::Done
            } else {
                ExecStep::AskAgain { delay: EXEC_DELAY }
            },
    {
        if exited {
            ExecStep::Done
        } else {
            ExecStep::AskAgain { delay: EXEC_DELAY }
        }
    }

    /// How a shutdown turned out. The guest may go down before its agent
    /// answers, so that no answer in time is no error.
    pub fn guest_shutdown<E>(answer: Option<Result<(), E>>) -> (r: Result<(), E>)
        ensures
            r == match answer {
                Some(answer) => answer,
                None => Ok(()),
            },
    {
        match answer {
            Some(answer) => answer,
            None => Ok(()),
        }
    }
}

impl DeviceAddRun {
    /// Whether an event says that the old device is gone.
    pub open spec fn says_gone(self, event: QmpEvent) -> bool {
        event matches QmpEvent::DeviceDeleted { device: Some(device) } && device@ == self.id@
    }

    /// Whether nothing stands in the way of the new device.
    pub open spec fn is_free(self) -> bool {
        self.deleted && self.gone
    }

    /// What to do next: the device is added once the old one is deleted and
    /// gone.
    pub open spec fn next_action(self) -> AddAction {
        if self.is_free() {
            AddAction::Add
        } else {
            AddAction::Wait
        }
    }

    /// What an answer or an event of the machine leads to. Once the old device
    /// is gone, events are of no account.
    pub open spec fn after(self, news: AddNews) -> (DeviceAddRun, Result<AddAction, QemuError>) {
        match news {
            AddNews::Listed(ListOutcome::Found) => (self, Ok(AddAction::Delete { id: self.id })),
            AddNews::Listed(ListOutcome::NotFound) => (self, Ok(AddAction::Add)),
            AddNews::Listed(ListOutcome::Failed) => (self, Err(QemuError::Failed)),
            AddNews::Deletion(false) => (self, Err(QemuError::Failed)),
            AddNews::Deletion(true) => {
                let run = DeviceAddRun { deleted: true, ..self };
                (run, Ok(run.next_action()))
            },
            AddNews::Event(Some(event)) => {
                let run = DeviceAddRun { gone: self.gone || self.says_gone(event), ..self };
                (run, Ok(run.next_action()))
            },
            AddNews::Event(None) => (
                self,
                if self.gone {
                    Ok(self.next_action())
                } else {
                    Err(QemuError::NotDeleted)
                },
            ),
        }
    }

    /// The state of the addition after some answers and events.
    pub open spec fn after_all(self, news: Seq<AddNews>) -> DeviceAddRun
        decreases news.len(),
    {
        if news.len() == 0 {
            self
        } else {
            self.after_all(news.drop_last()).after(news.last()).0
        }
    }

    /// What the last of some answers and events leads to.
    pub open spec fn action_after(self, news: Seq<AddNews>) -> Result<AddAction, QemuError> {
        self.after_all(news.drop_last()).after(news.last()).1
    }

    /// Whether one of some answers and events says that the old device is gone.
    pub open spec fn is_told_gone(self, news: Seq<AddNews>) -> bool {
        exists|i: int|
            #![trigger news[i]]
            0 <= i < news.len() && (news[i] matches AddNews::Event(Some(event)) && self.says_gone(
                event,
            ))
    }

    /// What to do once it is known whether the old device is there.
    pub fn listed(&self, outcome: ListOutcome) -> (action: Result<AddAction, QemuError>)
        ensures
            action == self.after(AddNews::Listed(outcome)).1,
    {
        match outcome {
            ListOutcome::Found => Ok(AddAction::Delete { id: self.id.clone() }),
            ListOutcome::NotFound => Ok(AddAction::Add),
            ListOutcome::Failed => Err(QemuError::Failed),
        }
    }

    fn next(&self) -> (action: AddAction)
        ensures
            action == self.next_action(),
    {
        if self.deleted && self.gone {
            AddAction::Add
        } else {
            AddAction::Wait
        }
    }

    /// Takes note of how the command that deletes the old device turned out.
    pub fn deletion(&mut self, ok: bool) -> (action: Result<AddAction, QemuError>)
        ensures
            (*final(self), action) == old(self).after(AddNews::Deletion(ok)),
    {
        if ok {
            self.deleted = true;
            Ok(self.next())
        } else {
            Err(QemuError::Failed)
        }
    }

    /// Takes note of an event of the machine, or of the end of its events.
    pub fn event(&mut self, event: Option<&QmpEvent>) -> (action: Result<AddAction, QemuError>)
        ensures
            (*final(self), action) == old(self).after(
                AddNews::Event(
                    match event {
                        Some(event) => Some(*event),
                        None => None,
                    },
                ),
            ),
    {
        match event {
            Some(QmpEvent::DeviceDeleted { device }) => {
                if let Some(device) = device {
                    if same_text(device.as_str(), self.id.as_str()) {
                        self.gone = true;
                    }
                }
                Ok(self.next())
            },
            Some(QmpEvent::Other) => Ok(self.next()),
            None => {
                if self.gone {
                    Ok(self.next())
                } else {
                    Err(QemuError::NotDeleted)
                }
            },
        }
    }
}

/// Whether the machine has taken the command that deletes the old device.
pub open spec fn is_deletion_taken(news: Seq<AddNews>) -> bool {
    news.contains(AddNews::Deletion(true))
}

proof fn lemma_after_all(run: DeviceAddRun, news: Seq<AddNews>)
    requires
        !run.deleted,
        !run.gone,
    ensures
        run.after_all(news) == (DeviceAddRun {
            deleted: is_deletion_taken(news),
            gone: run.is_told_gone(news),
            ..run
        }),
    decreases news.len(),
{
    if news.len() > 0 {
        let before = news.drop_last();
        lemma_after_all(run, before);
        assert(news =~= before.push(news.last()));
        assert(is_deletion_taken(news) == (is_deletion_taken(before) || news.last()
            == AddNews::Deletion(true)));
        assert(run.is_told_gone(before) ==> run.is_told_gone(news)) by {
            if run.is_told_gone(before) {
                let i = choose|i: int|
                    #![trigger before[i]]
                    0 <= i < before.len() && (before[i] matches AddNews::Event(Some(event))
                        && run.says_gone(event));
                assert(news[i] == before[i]);
            }
        }
    }
}

/// A device that is there is never added over: it is added only once the
/// command that deletes it was taken and the machine has said that it is gone,
/// in whichever order; and then it is, unless the last answer is a failure.
pub proof fn both_make_room(run: DeviceAddRun, news: Seq<AddNews>)
    requires
        !run.deleted,
        !run.gone,
        news.len() > 0,
        news[0] == AddNews::Listed(ListOutcome::Found),
        forall|i: int| 0 < i < news.len() ==> !(#[trigger] news[i] is Listed),
    ensures
        run.action_after(news) == Ok::<AddAction, QemuError>(AddAction::Add) <==> {
            &&& is_deletion_taken(news)
            &&& run.is_told_gone(news)
            &&& news.last() != AddNews::Deletion(false)
        },
{
    lemma_after_all(run, news.drop_last());
    lemma_after_all(run, news);
}

/// A connection that there is is used again; otherwise one is opened at the socket
/// that is configured for it, and without a socket there is none. The machine and its
/// agent have sockets of their own.
pub proof fn connections_are_by_their_sockets(
    qmp: Option<String>,
    qga: Option<String>,
    qemu: Qemu,
    connected: bool,
    connect: Result<Connect, QemuError>,
    agent: Result<String, QemuError>,
    keep: bool,
)
    requires
        call_ensures(Qemu::new, (qmp, qga), qemu),
        call_ensures(Qemu::connect_qmp, (&qemu, connected), connect),
        call_ensures(Qemu::connect_qga, (&qemu,), agent),
        call_ensures(Qemu::keeps_connection, (connected,), keep),
    ensures
        connected ==> connect == Ok::<Connect, QemuError>(Connect::Reuse),
        !connected && qmp is Some ==> connect == Ok::<Connect, QemuError>(Connect::Open(qmp->0)),
        !connected && qmp is None ==> connect == Err::<Connect, QemuError>(
            QemuError::QmpNotConfigured,
        ),
        qga is Some ==> agent == Ok::<String, QemuError>(qga->0),
        qga is None ==> agent == Err::<String, QemuError>(QemuError::QgaNotConfigured),
        keep <==> !connected,
{
}

/// A device is added by its id: what is at its path is looked for first, and without
/// an id it is not added. Where nothing is there it is added at once; what is there is
/// deleted first, by the same id; and where that cannot be found out, it has failed.
pub proof fn devices_are_looked_for_first(
    add: DeviceAdd,
    started: Result<(DeviceAddRun, AddAction), QemuError>,
    outcome: ListOutcome,
    action: Result<AddAction, QemuError>,
)
    requires
        call_ensures(Qemu::device_add, (&add,), started),
        started matches Ok(own) ==> call_ensures(DeviceAddRun::listed, (&own.0, outcome), action),
    ensures
        started is Err <==> add.id is None,
        started matches Err(error) ==> error is NoId,
        started matches Ok(own) ==> {
            &&& own.0.id == add.id->0 && !own.0.deleted && !own.0.gone
            &&& own.1 is List
            &&& own.1->path@ == "/machine/peripheral/"@ + add.id->0@
            &&& outcome is NotFound <==> action == Ok::<AddAction, QemuError>(AddAction::Add)
            &&& outcome is Found <==> action == Ok::<AddAction, QemuError>(
                AddAction::Delete { id: add.id->0 },
            )
            &&& outcome is Failed <==> action == Err::<AddAction, QemuError>(QemuError::Failed)
        },
{
}

/// The answer to a deletion and the events of the machine are what the addition of a
/// device goes by: it waits until the old device is deleted and gone, and only an event
/// that tells of this very device counts. A refused deletion, and the end of the events
/// before the device is gone, end it.
pub proof fn additions_wait_for_the_old_device(
    before: DeviceAddRun,
    ok: bool,
    deleted: Result<AddAction, QemuError>,
    after_deletion: DeviceAddRun,
    event: Option<&QmpEvent>,
    told: Result<AddAction, QemuError>,
    after_event: DeviceAddRun,
)
    requires
        exists|this: &mut DeviceAddRun| #[trigger]
            call_ensures(DeviceAddRun::deletion, (this, ok), deleted) && *this == before
                && *final(this) == after_deletion,
        exists|this: &mut DeviceAddRun| #[trigger]
            call_ensures(DeviceAddRun::event, (this, event), told) && *this == before
                && *final(this) == after_event,
    ensures
        after_deletion.id == before.id && after_event.id == before.id,
        after_deletion.deleted == (before.deleted || ok),
        after_deletion.gone == before.gone,
        after_event.deleted == before.deleted,
        !ok ==> deleted == Err::<AddAction, QemuError>(QemuError::Failed),
        ok ==> deleted == Ok::<AddAction, QemuError>(
            if before.gone {
                AddAction::Add
            } else {
                AddAction::Wait
            },
        ),
        ({
            let tells = event is Some && *event->0 is DeviceDeleted && (*event->0)->device is Some
                && (*event->0)->device->0@ == before.id@;
            &&& after_event.gone == (before.gone || tells)
            &&& event is None && !before.gone ==> told == Err::<AddAction, QemuError>(
                QemuError::NotDeleted,
            )
            &&& event is Some || before.gone ==> told == Ok::<AddAction, QemuError>(
                if before.deleted && after_event.gone {
                    AddAction::Add
                } else {
                    AddAction::Wait
                },
            )
        }),
{
}

/// A program of the guest is named by the first word, gets all others as arguments, in
/// order, and its output is kept. It is asked about until it has exited; a guest that
/// goes down need not answer, but an answer counts.
pub proof fn guest_programs_are_waited_for<E>(
    args: Vec<String>,
    command: GuestExecCommand,
    exited: bool,
    step: ExecStep,
    answer: Option<Result<(), E>>,
    r: Result<(), E>,
)
    requires
        args@.len() > 0,
        call_ensures(Qemu::guest_exec, (&args,), command),
        call_ensures(Qemu::guest_exec_, (exited,), step),
        call_ensures(Qemu::guest_shutdown::<E>, (answer,), r),
    ensures
        seq![command.path] + command.arg@ == args@,
        command.capture_output,
        exited <==> step is Done,
        !exited ==> step == (ExecStep::AskAgain { delay: 100 }),
        answer is None ==> r is Ok,
        answer is Some ==> r == answer->0,
{
    assert(seq![command.path] + command.arg@ =~= args@);
}

} // verus!
