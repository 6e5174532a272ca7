//! The sources of the monitor that the host and the guest are shown from, and
//! how it is switched between them.

use crate::config::{ConfigDdcMethod, ConfigMonitor, ConfigSource};
use crate::ddc::{find_guest_source, first_other, lemma_first_other_source, SearchDisplay};
use crate::text::{decimal, hex_pair, push_decimal, push_hex_pair, same_text};
use vstd::prelude::*;

verus! {

#[derive(Debug, Clone, Copy, PartialEq, Eq, Structural)]
pub enum InputsError {
    /// It is not known which source the host, or else the guest, is shown from.
    SourceNotFound { host: bool },
    LibddcutilMissing,
    DdcutilUnimplemented,
    MonitorNotFound,
}

impl InputsError {
    pub fn message(&self) -> (message: &'static str)
        ensures
            message@ == match *self {
                InputsError::SourceNotFound { host: true } => "DDC host input source not found"@,
                InputsError::SourceNotFound { host: false } => "DDC guest input source not found"@,
                InputsError::LibddcutilMissing => "Not compiled for libddcutil"@,
                InputsError::DdcutilUnimplemented => "ddcutil CLI support unimplemented"@,
                InputsError::MonitorNotFound => "DDC monitor not found"@,
            },
    {
        match *self {
            InputsError::SourceNotFound { host } => if host {
                "DDC host input source not found"
            } else {
                "DDC guest input source not found"
            },
            InputsError::LibddcutilMissing => "Not compiled for libddcutil",
            InputsError::DdcutilUnimplemented => "ddcutil CLI support unimplemented",
            InputsError::MonitorNotFound => "DDC monitor not found",
        }
    }
}

/// The monitor to search for.
pub fn convert_display(monitor: ConfigMonitor) -> (search: SearchDisplay)
    ensures
        search.backend_id == monitor.id,
        search.manufacturer_id == monitor.manufacturer,
        search.model_name == monitor.model,
        search.serial_number == monitor.serial,
        search.path is None,
{
    SearchDisplay {
        backend_id: monitor.id,
        manufacturer_id: monitor.manufacturer,
        model_name: monitor.model,
        serial_number: monitor.serial,
        path: None,
    }
}

/// An argument with the source put in: in decimal for `{}`, in hexadecimal for
/// `{:x}` and `0x{:x}`. Any other argument stays as it is.
pub open spec fn mapped_arg(arg: Seq<char>, input: Option<u8>, host: bool) -> Result<
    Seq<char>,
    InputsError,
> {
    if arg == "{}"@ || arg == "{:x}"@ || arg == "0x{:x}"@ {
        match input {
            Some(input) => Ok(
                if arg == "{}"@ {
                    decimal(input as nat)
                } else if arg == "{:x}"@ {
                    hex_pair(input)
                } else {
                    "0x"@ + hex_pair(input)
                },
            ),
            None => Err(InputsError::SourceNotFound { host }),
        }
    } else {
        Ok(arg)
    }
}

/// Whether some arguments are others with the source put in.
pub open spec fn are_mapped(
    mapped: Result<Vec<String>, InputsError>,
    args: Seq<String>,
    input: Option<u8>,
    host: bool,
) -> bool {
    match mapped {
        Ok(mapped) => {
            &&& mapped@.len() == args.len()
            &&& forall|i: int|
                0 <= i < args.len() ==> mapped_arg((#[trigger] args[i])@, input, host) == Ok::<
                    Seq<char>,
                    InputsError,
                >(mapped@[i]@)
        },
        Err(error) => {
            &&& error == InputsError::SourceNotFound { host }
            &&& exists|i: int|
                0 <= i < args.len() && mapped_arg((#[trigger] args[i])@, input, host) is Err
        },
    }
}

/// What showing the host or the guest by some method asks for.
#[derive(Debug)]
pub enum ShowAction {
    /// Wait until the guest answers.
    DetectGuest,
    /// Connect to the monitor by some method, and select a source.
    SetInput { method: ConfigDdcMethod, input: Result<u8, InputsError> },
    Exec(Result<Vec<String>, InputsError>),
    GuestExec(Result<Vec<String>, InputsError>),
}

/// Whether an action shows the host or the guest by some method.
pub open spec fn shows(
    action: ShowAction,
    method: ConfigDdcMethod,
    input: Option<u8>,
    host: bool,
) -> bool {
    match method {
        ConfigDdcMethod::GuestWait => action is DetectGuest,
        ConfigDdcMethod::Ddc | ConfigDdcMethod::Libddcutil | ConfigDdcMethod::Ddcutil => action
            == ShowAction::SetInput {
            method,
            input: match input {
                Some(input) => Ok(input),
                None => Err(InputsError::SourceNotFound { host }),
            },
        },
        ConfigDdcMethod::Exec(args) => action matches ShowAction::Exec(mapped) && are_mapped(
            mapped,
            args@,
            input,
            host,
        ),
        ConfigDdcMethod::GuestExec(args) => action matches ShowAction::GuestExec(mapped)
            && are_mapped(mapped, args@, input, host),
    }
}

/// How to get at the monitor.
#[derive(Debug, Clone, Copy, PartialEq, Eq, Structural)]
pub enum Connect {
    /// It is connected to.
    Connected,
    /// It has to be searched for.
    Search,
}

/// What is still to be found out.
#[derive(Debug, Clone, Copy, PartialEq, Eq, Structural)]
pub struct Wants {
    /// The source that the monitor shows.
    pub host: bool,
    /// The sources that the monitor has.
    pub guest: bool,
}

/// The sources of the monitor, and which one it shows.
#[derive(Debug)]
pub struct Inputs {
    pub input_guest: Option<u8>,
    pub input_host: Option<u8>,
    pub showing_guest: bool,
    pub host: Vec<ConfigDdcMethod>,
    pub guest: Vec<ConfigDdcMethod>,
    pub monitor: SearchDisplay,
}

impl Inputs {
    /// What showing does not change.
    pub open spec fn same_setup(self, other: Inputs) -> bool {
        &&& self.host == other.host
        &&& self.guest == other.guest
        &&& self.monitor == other.monitor
    }

    /// The source of the host or of the guest.
    pub open spec fn input_of(self, host: bool) -> Option<u8> {
        if host {
            self.input_host
        } else {
            self.input_guest
        }
    }

    /// The methods by which the host or the guest is shown.
    pub open spec fn methods_of(self, host: bool) -> Seq<ConfigDdcMethod> {
        if host {
            self.host@
        } else {
            self.guest@
        }
    }

    pub fn new(
        display: ConfigMonitor,
        input_host: ConfigSource,
        input_guest: ConfigSource,
        host: Vec<ConfigDdcMethod>,
        guest: Vec<ConfigDdcMethod>,
    ) -> (inputs: Inputs)
        ensures
            inputs.input_host == input_host.chosen_value(),
            inputs.input_guest == input_guest.chosen_value(),
            !inputs.showing_guest,
            inputs.host == host,
            inputs.guest == guest,
            inputs.monitor.backend_id == display.id,
            inputs.monitor.manufacturer_id == display.manufacturer,
            inputs.monitor.model_name == display.model,
            inputs.monitor.serial_number == display.serial,
            inputs.monitor.path is None,
    {
        Inputs {
            input_guest: input_guest.value(),
            input_host: input_host.value(),
            showing_guest: false,
            host,
            guest,
            monitor: convert_display(display),
        }
    }

    /// What is still to be found out before the monitor can be switched.
    pub fn wants(&self) -> (wants: Wants)
        ensures
            wants == (Wants {
                host: self.input_host is None,
                guest: self.input_guest is None,
            }),
    {
        Wants { host: self.input_host.is_none(), guest: self.input_guest.is_none() }
    }

    /// Takes the source that the monitor shows for the host's, and the first
    /// one that is not the host's for the guest's, as far as they are not
    /// known and the monitor has been asked.
    pub fn fill(&mut self, current: Option<u8>, sources: Option<Vec<u8>>)
        ensures
            final(self).input_host == match old(self).input_host {
                Some(input) => Some(input),
                None => current,
            },
            final(self).input_guest == match old(self).input_guest {
                Some(input) => Some(input),
                None => match (sources, final(self).input_host) {
                    (Some(sources), Some(host)) => first_other(sources@, host),
                    _ => None,
                },
            },
            final(self).showing_guest == old(self).showing_guest,
            final(self).same_setup(*old(self)),
    {
        if self.input_host.is_none() {
            self.input_host = current;
        }
        if self.input_guest.is_none() {
            if let Some(host) = self.input_host {
                if let Some(sources) = sources {
                    self.input_guest = find_guest_source(sources.as_slice(), host);
                }
            }
        }
    }

    /// An argument with the source put in.
    pub fn map_input_arg(s: &str, input: Option<u8>, host: bool) -> (mapped: Result<
        String,
        InputsError,
    >)
        ensures
            match mapped {
                Ok(text) => mapped_arg(s@, input, host) == Ok::<Seq<char>, InputsError>(text@),
                Err(error) => mapped_arg(s@, input, host) == Err::<Seq<char>, InputsError>(error),
            },
    {
        proof {
            reveal_strlit("{}");
            reveal_strlit("{:x}");
            reveal_strlit("0x{:x}");
        }
        let input = match input {
            Some(input) => Ok(input),
            None => Err(InputsError::SourceNotFound { host }),
        };
        let mut text = String::new();
        if same_text(s, "{}") {
            match input {
                Ok(input) => {
                    push_decimal(&mut text, input as u32);
                    assert(text@ =~= decimal(input as nat));
                },
                Err(error) => {
                    return Err(error);
                },
            }
        } else if same_text(s, "{:x}") {
            match input {
                Ok(input) => {
                    push_hex_pair(&mut text, input);
                    assert(text@ =~= hex_pair(input));
                },
                Err(error) => {
                    return Err(error);
                },
            }
        } else if same_text(s, "0x{:x}") {
            match input {
                Ok(input) => {
                    text.append("0x");
                    push_hex_pair(&mut text, input);
                    assert(text@ =~= "0x"@ + hex_pair(input));
                },
                Err(error) => {
                    return Err(error);
                },
            }
        } else {
            text.append(s);
            assert(text@ =~= s@);
        }
        Ok(text)
    }

    /// Arguments with the source put in.
    pub fn map_input_args(args: &Vec<String>, input: Option<u8>, host: bool) -> (mapped: Result<
        Vec<String>,
        InputsError,
    >)
        ensures
            are_mapped(mapped, args@, input, host),
    {
        let mut mapped: Vec<String> = Vec::new();
        for i in 0..args.len()
            invariant
                mapped@.len() == i,
                forall|j: int|
                    0 <= j < i ==> mapped_arg((#[trigger] args@[j])@, input, host) == Ok::<
                        Seq<char>,
                        InputsError,
                    >(mapped@[j]@),
        {
            match Inputs::map_input_arg(args[i].as_str(), input, host) {
                Ok(arg) => {
                    mapped.push(arg);
                },
                Err(error) => {
                    assert(mapped_arg(args@[i as int]@, input, host) is Err);
                    return Err(error);
                },
            }
        }
        Ok(mapped)
    }

    /// Whether the monitor was last switched to the guest.
    pub fn showing_guest(&self) -> (showing: bool)
        ensures
            showing == self.showing_guest,
    {
        self.showing_guest
    }

    /// How to get at the monitor by some method. The ddcutil program, and the
    /// library where it is not there, are no way to get at it.
    pub fn ddc_connect(connected: bool, method: &ConfigDdcMethod) -> (connect: Result<
        Connect,
        InputsError,
    >)
        ensures
            connect == if connected {
                Ok(Connect::Connected)
            } else {
                match *method {
                    ConfigDdcMethod::Libddcutil => Err(InputsError::LibddcutilMissing),
                    ConfigDdcMethod::Ddcutil => Err(InputsError::DdcutilUnimplemented),
                    _ => Ok(Connect::Search),
                }
            },
    {
        if connected {
            Ok(Connect::Connected)
        } else {
            match method {
                ConfigDdcMethod::Libddcutil => Err(InputsError::LibddcutilMissing),
                ConfigDdcMethod::Ddcutil => Err(InputsError::DdcutilUnimplemented),
                _ => Ok(Connect::Search),
            }
        }
    }

    /// The monitor that is connected to, or else the one that a search found,
    /// which is connected to from then on.
    pub fn ddc_monitor<M>(ddc: &mut Option<M>, found: Option<M>) -> (monitor: Result<
        &mut M,
        InputsError,
    >)
        ensures
            match (*old(ddc), found) {
                (Some(m), _) | (None, Some(m)) => monitor matches Ok(r) && *r == m && *final(ddc)
                    == Some(*final(r)),
                (None, None) => monitor == Err::<&mut M, InputsError>(InputsError::MonitorNotFound)
                    && *final(ddc) is None,
            },
    {
        if ddc.is_none() {
            *ddc = found;
        }
        match ddc {
            Some(monitor) => Ok(monitor),
            None => Err(InputsError::MonitorNotFound),
        }
    }

    /// Whether showing the host or the guest switches to it: the other one is
    /// shown.
    pub open spec fn switches(self, host: bool) -> bool {
        self.showing_guest == host
    }

    /// The same, with the host or the guest shown.
    pub open spec fn shown(self, host: bool) -> Inputs {
        Inputs { showing_guest: !host, ..self }
    }

    /// Shows the guest.
    pub fn show_guest(&self) -> (actions: Vec<ShowAction>)
        ensures
            !self.switches(false) ==> actions@.len() == 0,
            self.switches(false) ==> self.is_shown_by(actions@, false),
    {
        self.show(false)
    }

    /// Shows the host.
    pub fn show_host(&self) -> (actions: Vec<ShowAction>)
        ensures
            !self.switches(true) ==> actions@.len() == 0,
            self.switches(true) ==> self.is_shown_by(actions@, true),
    {
        self.show(true)
    }

    /// Whether some actions are those of all methods by which the host or the
    /// guest is shown.
    pub open spec fn is_shown_by(self, actions: Seq<ShowAction>, host: bool) -> bool {
        &&& actions.len() == self.methods_of(host).len()
        &&& forall|i: int|
            0 <= i < actions.len() ==> shows(
                #[trigger] actions[i],
                self.methods_of(host)[i],
                self.input_of(host),
                host,
            )
    }

    /// Shows the host or the guest, unless it was the last that was shown. The
    /// actions are taken one after another until one fails; before the first
    /// one, and also where there is none, note is taken of what is shown.
    pub fn show(&self, host: bool) -> (actions: Vec<ShowAction>)
        ensures
            !self.switches(host) ==> actions@.len() == 0,
            self.switches(host) ==> self.is_shown_by(actions@, host),
    {
        if self.showing_guest() == host {
            self.show_forced(host)
        } else {
            Vec::new()
        }
    }

    /// Takes note of what is shown.
    pub fn set_shown(&mut self, host: bool)
        ensures
            *final(self) == old(self).shown(host),
    {
        self.showing_guest = !host;
    }

    /// Shows the host or the guest, also where it was the last that was shown.
    pub fn show_forced(&self, host: bool) -> (actions: Vec<ShowAction>)
        ensures
            self.is_shown_by(actions@, host),
    {
        let mut actions: Vec<ShowAction> = Vec::new();
        let methods = if host {
            &self.host
        } else {
            &self.guest
        };
        for i in 0..methods.len()
            invariant
                methods@ == self.methods_of(host),
                actions@.len() == i,
                forall|j: int|
                    0 <= j < i ==> shows(
                        #[trigger] actions@[j],
                        methods@[j],
                        self.input_of(host),
                        host,
                    ),
        {
            let action = self.show_(host, &methods[i]);
            actions.push(action);
        }
        actions
    }

    /// A source that has to be known.
    fn known(input: Option<u8>, host: bool) -> (known: Result<u8, InputsError>)
        ensures
            known == match input {
                Some(input) => Ok(input),
                None => Err(InputsError::SourceNotFound { host }),
            },
    {
        match input {
            Some(input) => Ok(input),
            None => Err(InputsError::SourceNotFound { host }),
        }
    }

    fn show_(&self, host: bool, method: &ConfigDdcMethod) -> (action: ShowAction)
        ensures
            shows(action, *method, self.input_of(host), host),
    {
        let input = if host {
            self.input_host
        } else {
            self.input_guest
        };
        match method {
            ConfigDdcMethod::GuestWait => ShowAction::DetectGuest,
            ConfigDdcMethod::Ddc => ShowAction::SetInput {
                method: ConfigDdcMethod::Ddc,
                input: Inputs::known(input, host),
            },
            ConfigDdcMethod::Libddcutil => ShowAction::SetInput {
                method: ConfigDdcMethod::Libddcutil,
                input: Inputs::known(input, host),
            },
            ConfigDdcMethod::Ddcutil => ShowAction::SetInput {
                method: ConfigDdcMethod::Ddcutil,
                input: Inputs::known(input, host),
            },
            ConfigDdcMethod::Exec(args) => ShowAction::Exec(
                Inputs::map_input_args(args, input, host),
            ),
            ConfigDdcMethod::GuestExec(args) => ShowAction::GuestExec(
                Inputs::map_input_args(args, input, host),
            ),
        }
    }
}

/// The host or the guest is only switched to where it is not shown: showing it
/// again does nothing, and showing the other one then switches.
pub proof fn showing_again_does_nothing(inputs: Inputs, host: bool)
    ensures
        !inputs.shown(host).switches(host),
        inputs.shown(host).switches(!host),
        inputs.shown(host).shown(host) == inputs.shown(host),
{
}

/// Whether an argument stands for the source.
pub open spec fn is_placeholder(arg: Seq<char>) -> bool {
    ||| arg == seq!['{', '}']
    ||| arg == seq!['{', ':', 'x', '}']
    ||| arg == seq!['0', 'x', '{', ':', 'x', '}']
}

/// Whether an argument is another one with a source put in: the source in decimal,
/// or as two hexadecimal digits, for one that stands for it, and any other argument
/// as it is.
pub open spec fn is_filled_in(filled: Seq<char>, arg: Seq<char>, source: u8) -> bool {
    &&& arg == seq!['{', '}'] ==> {
        &&& forall|i: int| 0 <= i < filled.len() ==> '0' <= #[trigger] filled[i] <= '9'
        &&& source < 10 ==> filled.len() == 1 && filled[0] as int == '0' as int + source
        &&& 10 <= source < 100 ==> filled.len() == 2 && filled[0] as int == '0' as int + source / 10
            && filled[1] as int == '0' as int + source % 10
        &&& 100 <= source ==> filled.len() == 3 && filled[0] as int == '0' as int + source / 100
            && filled[1] as int == '0' as int + source / 10 % 10 && filled[2] as int == '0' as int
            + source % 10
    }
    &&& arg == seq!['{', ':', 'x', '}'] ==> is_hexadecimal(filled, source)
    &&& arg == seq!['0', 'x', '{', ':', 'x', '}'] ==> {
        &&& filled.len() == 4
        &&& filled[0] == '0' && filled[1] == 'x'
        &&& is_hexadecimal(filled.skip(2), source)
    }
    &&& !is_placeholder(arg) ==> filled == arg
    &&& !is_placeholder(filled)
}

/// Whether a text is a number as two hexadecimal digits, in lower case.
pub open spec fn is_hexadecimal(text: Seq<char>, number: u8) -> bool {
    &&& text.len() == 2
    &&& is_hex_digit(text[0], number as int / 16)
    &&& is_hex_digit(text[1], number as int % 16)
}

/// Whether a character is the digit with a value, in lower case.
pub open spec fn is_hex_digit(c: char, value: int) -> bool {
    c as int == if value < 10 {
        '0' as int + value
    } else {
        'a' as int + value - 10
    }
}

proof fn lemma_filled_in(arg: Seq<char>, source: u8, host: bool)
    ensures
        mapped_arg(arg, Some(source), host) matches Ok(filled) && is_filled_in(filled, arg, source),
        is_placeholder(arg) ==> mapped_arg(arg, None, host) == Err::<Seq<char>, InputsError>(
            InputsError::SourceNotFound { host },
        ),
        !is_placeholder(arg) ==> mapped_arg(arg, None, host) == Ok::<Seq<char>, InputsError>(arg),
{
    reveal_strlit("{}");
    reveal_strlit("{:x}");
    reveal_strlit("0x{:x}");
    reveal_strlit("0x");
    assert("{}"@ =~= seq!['{', '}']);
    assert("{:x}"@ =~= seq!['{', ':', 'x', '}']);
    assert("0x{:x}"@ =~= seq!['0', 'x', '{', ':', 'x', '}']);
    reveal_with_fuel(decimal, 4);
    let filled = mapped_arg(arg, Some(source), host)->Ok_0;
    if arg == seq!['{', '}'] {
        if source >= 100 {
            assert(source as nat / 10 / 10 == source / 100);
        }
        assert(is_filled_in(filled, arg, source));
    } else if arg == seq!['0', 'x', '{', ':', 'x', '}'] {
        assert(filled.skip(2) =~= hex_pair(source));
    }
}

/// With a source that is known, every argument that stands for the source is
/// replaced by it, every other one is left as it is, and their number and order are
/// kept. With one that is not, arguments that stand for it are an error, and
/// without such an argument nothing is changed.
pub proof fn sources_are_put_in(
    args: Vec<String>,
    input: Option<u8>,
    host: bool,
    mapped: Result<Vec<String>, InputsError>,
)
    requires
        call_ensures(Inputs::map_input_args, (&args, input, host), mapped),
    ensures
        are_filled_in(mapped, args@, input, host),
{
    lemma_are_filled_in(mapped, args@, input, host);
}

/// Whether some arguments are others with a source put in, or why they are not.
pub open spec fn are_filled_in(
    mapped: Result<Vec<String>, InputsError>,
    args: Seq<String>,
    input: Option<u8>,
    host: bool,
) -> bool {
    let needed = exists|i: int| 0 <= i < args.len() && is_placeholder((#[trigger] args[i])@);
    if input is None && needed {
        mapped == Err::<Vec<String>, InputsError>(InputsError::SourceNotFound { host })
    } else {
        &&& mapped is Ok
        &&& mapped->Ok_0@.len() == args.len()
        &&& input matches Some(source) ==> forall|i: int|
            0 <= i < args.len() ==> is_filled_in(
                (#[trigger] mapped->Ok_0@[i])@,
                args[i]@,
                source,
            )
        &&& input is None ==> forall|i: int|
            0 <= i < args.len() ==> (#[trigger] mapped->Ok_0@[i])@ == args[i]@
    }
}

proof fn lemma_are_filled_in(
    mapped: Result<Vec<String>, InputsError>,
    args: Seq<String>,
    input: Option<u8>,
    host: bool,
)
    requires
        are_mapped(mapped, args, input, host),
    ensures
        are_filled_in(mapped, args, input, host),
{
    let needed = exists|i: int| 0 <= i < args.len() && is_placeholder((#[trigger] args[i])@);
    match mapped {
        Ok(own) => {
            assert forall|i: int| 0 <= i < args.len() implies mapped_arg(
                (#[trigger] args[i])@,
                input,
                host,
            ) == Ok::<Seq<char>, InputsError>(own@[i]@) && (input is None ==> !is_placeholder(
                args[i]@,
            )) && (input matches Some(source) ==> is_filled_in(own@[i]@, args[i]@, source)) && (
            input is None ==> own@[i]@ == args[i]@) by {
                lemma_filled_in(
                    args[i]@,
                    if input is Some {
                        input->0
                    } else {
                        0
                    },
                    host,
                );
            }
            if input is None && needed {
                let i = choose|i: int| 0 <= i < args.len() && is_placeholder((#[trigger] args[i])@);
                assert(!is_placeholder(args[i]@));
            }
            assert forall|i: int| 0 <= i < args.len() && input is Some implies is_filled_in(
                (#[trigger] own@[i])@,
                args[i]@,
                input->0,
            ) by {
                assert(mapped_arg(args[i]@, input, host) == Ok::<Seq<char>, InputsError>(
                    own@[i]@,
                ));
            }
            assert forall|i: int| 0 <= i < args.len() && input is None implies (
            #[trigger] own@[i])@ == args[i]@ by {
                assert(mapped_arg(args[i]@, input, host) == Ok::<Seq<char>, InputsError>(
                    own@[i]@,
                ));
            }
        },
        Err(error) => {
            let i = choose|i: int|
                0 <= i < args.len() && mapped_arg((#[trigger] args[i])@, input, host) is Err;
            lemma_filled_in(
                args[i]@,
                if input is Some {
                    input->0
                } else {
                    0
                },
                host,
            );
        },
    }
}

/// Whether an action is the one of a method: waiting for the guest, selecting the
/// source by the method, or running the method's own command, on the host or in the
/// guest, with the source put in.
pub open spec fn is_of_method(
    action: ShowAction,
    method: ConfigDdcMethod,
    input: Option<u8>,
    host: bool,
) -> bool {
    &&& method is GuestWait ==> action is DetectGuest
    &&& method is Ddc || method is Libddcutil || method is Ddcutil ==> {
        &&& action is SetInput
        &&& action->method == method
        &&& input matches Some(source) ==> action->input == Ok::<u8, InputsError>(source)
        &&& input is None ==> action->input == Err::<u8, InputsError>(
            InputsError::SourceNotFound { host },
        )
    }
    &&& method matches ConfigDdcMethod::Exec(args) ==> (action matches ShowAction::Exec(own)
        && are_filled_in(own, args@, input, host))
    &&& method matches ConfigDdcMethod::GuestExec(args) ==> (action matches ShowAction::GuestExec(own)
        && are_filled_in(own, args@, input, host))
}

proof fn lemma_of_method(
    inputs: Inputs,
    host: bool,
    methods: Seq<ConfigDdcMethod>,
    source: Option<u8>,
    actions: Seq<ShowAction>,
)
    requires
        inputs.is_shown_by(actions, host),
        methods == if host {
            inputs.host@
        } else {
            inputs.guest@
        },
        source == if host {
            inputs.input_host
        } else {
            inputs.input_guest
        },
    ensures
        actions.len() == methods.len(),
        forall|i: int|
            0 <= i < actions.len() ==> is_of_method(
                #[trigger] actions[i],
                methods[i],
                source,
                host,
            ),
{
    assert forall|i: int| 0 <= i < actions.len() implies is_of_method(
        #[trigger] actions[i],
        methods[i],
        source,
        host,
    ) by {
        assert(shows(actions[i], methods[i], source, host));
        if let ConfigDdcMethod::Exec(args) = methods[i] {
            lemma_are_filled_in(actions[i]->Exec_0, args@, source, host);
        }
        if let ConfigDdcMethod::GuestExec(args) = methods[i] {
            lemma_are_filled_in(actions[i]->GuestExec_0, args@, source, host);
        }
    }
}

/// Showing the host or the guest takes one action for each of its methods, in
/// order, with its source; but none where it was the last that was shown, unless it
/// is forced.
pub proof fn showing_follows_every_method(
    inputs: Inputs,
    host: bool,
    forced: Vec<ShowAction>,
    actions: Vec<ShowAction>,
)
    requires
        call_ensures(Inputs::show_forced, (&inputs, host), forced),
        ({
            ||| call_ensures(Inputs::show, (&inputs, host), actions)
            ||| host && call_ensures(Inputs::show_host, (&inputs,), actions)
            ||| !host && call_ensures(Inputs::show_guest, (&inputs,), actions)
        }),
    ensures
        ({
            let methods = if host {
                inputs.host@
            } else {
                inputs.guest@
            };
            let source = if host {
                inputs.input_host
            } else {
                inputs.input_guest
            };
            &&& forced@.len() == methods.len()
            &&& forall|i: int|
                0 <= i < methods.len() ==> is_of_method(
                    #[trigger] forced@[i],
                    methods[i],
                    source,
                    host,
                )
            &&& inputs.showing_guest != host ==> actions@.len() == 0
            &&& inputs.showing_guest == host ==> actions@.len() == methods.len() && forall|i: int|
                0 <= i < methods.len() ==> is_of_method(
                    #[trigger] actions@[i],
                    methods[i],
                    source,
                    host,
                )
        }),
{
    let methods = if host {
        inputs.host@
    } else {
        inputs.guest@
    };
    let source = if host {
        inputs.input_host
    } else {
        inputs.input_guest
    };
    lemma_of_method(inputs, host, methods, source, forced@);
    if inputs.showing_guest == host {
        lemma_of_method(inputs, host, methods, source, actions@);
    }
}

/// What is shown is what was last noted, and nothing else is changed by noting it.
pub proof fn the_last_that_was_shown_is_known(
    before: Inputs,
    host: bool,
    after: Inputs,
    showing_guest: bool,
)
    requires
        exists|this: &mut Inputs, r: ()| #[trigger]
            call_ensures(Inputs::set_shown, (this, host), r) && *this == before && *final(this)
                == after,
        call_ensures(Inputs::showing_guest, (&after,), showing_guest),
    ensures
        showing_guest == !host,
        after.input_host == before.input_host,
        after.input_guest == before.input_guest,
        after.host == before.host,
        after.guest == before.guest,
        after.monitor == before.monitor,
{
}

/// A source that is known is kept. Otherwise the host's is the one that the monitor
/// shows, and the guest's is the first one of the monitor that is not the host's.
pub proof fn sources_are_found_out(
    before: Inputs,
    current: Option<u8>,
    sources: Option<Vec<u8>>,
    after: Inputs,
)
    requires
        exists|this: &mut Inputs, r: ()| #[trigger]
            call_ensures(Inputs::fill, (this, current, sources), r) && *this == before
                && *final(this) == after,
    ensures
        before.input_host is Some ==> after.input_host == before.input_host,
        before.input_host is None ==> after.input_host == current,
        before.input_guest is Some ==> after.input_guest == before.input_guest,
        before.input_guest is None ==> {
            &&& sources is None || after.input_host is None ==> after.input_guest is None
            &&& after.input_guest matches Some(guest) ==> {
                &&& sources is Some
                &&& Some(guest) != after.input_host
                &&& exists|i: int|
                    {
                        &&& 0 <= i < sources->0@.len()
                        &&& #[trigger] sources->0@[i] == guest
                        &&& forall|j: int|
                            0 <= j < i ==> Some(#[trigger] sources->0@[j]) == after.input_host
                    }
            }
            &&& (sources matches Some(all) && after.input_host is Some && after.input_guest is None)
                ==> forall|i: int|
                0 <= i < sources->0@.len() ==> Some(#[trigger] sources->0@[i]) == after.input_host
        },
        after.showing_guest == before.showing_guest,
        after.host == before.host,
        after.guest == before.guest,
        after.monitor == before.monitor,
{
    if before.input_guest is None {
        if let (Some(all), Some(host)) = (sources, after.input_host) {
            lemma_first_other_source(all@, host);
        }
    }
}

/// A monitor that is connected to is used; otherwise it is searched for, but not by
/// the ddcutil program or by its library.
pub proof fn monitors_are_searched_for_once(
    connected: bool,
    method: ConfigDdcMethod,
    connect: Result<Connect, InputsError>,
)
    requires
        call_ensures(Inputs::ddc_connect, (connected, &method), connect),
    ensures
        connected <==> connect == Ok::<Connect, InputsError>(Connect::Connected),
        connect == Ok::<Connect, InputsError>(Connect::Search) <==> !connected && !(
        method is Libddcutil || method is Ddcutil),
        !connected && method is Libddcutil ==> connect == Err::<Connect, InputsError>(
            InputsError::LibddcutilMissing,
        ),
        !connected && method is Ddcutil ==> connect == Err::<Connect, InputsError>(
            InputsError::DdcutilUnimplemented,
        ),
{
}

/// The monitor that is searched for is the one that is configured, by each of its
/// marks, and nothing is shown but the host until it is switched.
pub proof fn configured_monitors_are_searched_for(
    monitor: ConfigMonitor,
    search: SearchDisplay,
    host_source: ConfigSource,
    guest_source: ConfigSource,
    host: Vec<ConfigDdcMethod>,
    guest: Vec<ConfigDdcMethod>,
    inputs: Inputs,
    wants: Wants,
)
    requires
        call_ensures(convert_display, (monitor,), search),
        call_ensures(Inputs::new, (monitor, host_source, guest_source, host, guest), inputs),
        call_ensures(Inputs::wants, (&inputs,), wants),
    ensures
        search.backend_id == monitor.id && inputs.monitor.backend_id == monitor.id,
        search.manufacturer_id == monitor.manufacturer && inputs.monitor.manufacturer_id
            == monitor.manufacturer,
        search.model_name == monitor.model && inputs.monitor.model_name == monitor.model,
        search.serial_number == monitor.serial && inputs.monitor.serial_number == monitor.serial,
        search.path is None && inputs.monitor.path is None,
        inputs.host == host && inputs.guest == guest,
        !inputs.showing_guest,
        forall|value: Option<u8>|
            call_ensures(ConfigSource::value, (&host_source,), value) ==> inputs.input_host
                == value,
        forall|value: Option<u8>|
            call_ensures(ConfigSource::value, (&guest_source,), value) ==> inputs.input_guest
                == value,
        wants.host == (inputs.input_host is None),
        wants.guest == (inputs.input_guest is None),
{
}

/// An argument that stands for the source becomes the source, and is an error where
/// the source is not known; any other argument stays as it is.
pub proof fn placeholders_become_the_source(
    s: &str,
    input: Option<u8>,
    host: bool,
    mapped: Result<String, InputsError>,
)
    requires
        call_ensures(Inputs::map_input_arg, (s, input, host), mapped),
    ensures
        mapped is Err <==> is_placeholder(s@) && input is None,
        mapped matches Err(error) ==> error == (InputsError::SourceNotFound { host }),
        mapped is Ok && input is Some ==> is_filled_in(mapped->Ok_0@, s@, input->0),
        !is_placeholder(s@) ==> mapped is Ok && mapped->Ok_0@ == s@,
{
    lemma_filled_in(
        s@,
        if input is Some {
            input->0
        } else {
            0
        },
        host,
    );
}

/// The monitor that is connected to is kept and used; otherwise the one that was found
/// is, from then on; without either there is none.
pub proof fn found_monitors_are_kept<M>(
    before: Option<M>,
    found: Option<M>,
    error: InputsError,
)
    ensures
        forall|ddc: &mut Option<M>, monitor: &mut M|
            #![trigger call_ensures(Inputs::ddc_monitor::<M>, (ddc, found), Ok(monitor))]
            call_ensures(Inputs::ddc_monitor::<M>, (ddc, found), Ok(monitor)) && *ddc == before
                ==> {
                &&& before is Some ==> *monitor == before->0
                &&& before is None ==> found is Some && *monitor == found->0
                &&& *final(ddc) == Some(*final(monitor))
            },
        forall|ddc: &mut Option<M>|
            #![trigger call_ensures(Inputs::ddc_monitor::<M>, (ddc, found), Err(error))]
            call_ensures(Inputs::ddc_monitor::<M>, (ddc, found), Err(error)) && *ddc == before ==> {
                &&& before is None && found is None
                &&& error is MonitorNotFound
                &&& *final(ddc) is None
            },
{
}

} // verus!
