//! Input events, their kinds and their codes, as the kernel's input subsystem
//! numbers them.

use vstd::prelude::*;

verus! {

/// The number of key codes.
pub const KEY_COUNT: u16 = 0x300;

pub const KEY_RESERVED: u16 = 0;

pub const BUTTON_LEFT: u16 = 0x110;

pub const BUTTON_RIGHT: u16 = 0x111;

pub const BUTTON_MIDDLE: u16 = 0x112;

pub const BUTTON_SIDE: u16 = 0x113;

pub const BUTTON_EXTRA: u16 = 0x114;

pub const BUTTON_FORWARD: u16 = 0x115;

pub const BUTTON_BACK: u16 = 0x116;

pub const BUTTON_WHEEL: u16 = 0x150;

pub const BUTTON_GEAR_UP: u16 = 0x151;

pub const REL_X: u16 = 0;

pub const REL_Y: u16 = 1;

pub const REL_HORIZONTAL_WHEEL: u16 = 6;

pub const REL_WHEEL: u16 = 8;

pub const ABS_X: u16 = 0;

pub const ABS_Y: u16 = 1;

pub const ABS_VOLUME: u16 = 0x20;

/// The value of a key event that reports a release.
pub const RELEASED: i32 = 0;

/// The value of a key event that reports a press.
pub const PRESSED: i32 = 1;

/// The bus type of devices that no hardware stands behind.
pub const BUS_VIRTUAL: u16 = 0x06;

/// Whether a key code is one of a button, as found on a mouse or a gamepad.
pub open spec fn is_button_code(code: u16) -> bool {
    0x100 <= code < 0x160 || 0x2c0 <= code
}

/// Whether a number is the type of some event.
pub open spec fn is_event_type(type_: u16) -> bool {
    type_ <= 0x1f || type_ == 0x101
}

/// How many codes events of a type have; `None` where every code is accepted.
pub open spec fn code_count(type_: u16) -> Option<u16> {
    if type_ == 0x00 {
        Some(0x10)
    } else if type_ == 0x01 {
        Some(KEY_COUNT)
    } else if type_ == 0x02 {
        Some(0x10)
    } else if type_ == 0x03 {
        Some(0x40)
    } else if type_ == 0x04 {
        Some(0x08)
    } else if type_ == 0x05 {
        Some(0x11)
    } else if type_ == 0x11 {
        Some(0x10)
    } else if type_ == 0x12 {
        Some(0x08)
    } else if type_ == 0x14 {
        Some(0x02)
    } else if type_ == 0x15 {
        Some(0x80)
    } else if type_ == 0x17 {
        Some(0x02)
    } else if type_ == 0x101 {
        Some(0x03)
    } else {
        None
    }
}

/// Whether events of a type may carry a code.
pub open spec fn code_in_range(type_: u16, code: u16) -> bool {
    match code_count(type_) {
        Some(n) => code < n,
        None => true,
    }
}

/// `input_linux::EventRef::new` on an event of the given type and code. It
/// accepts the event exactly when the code is below the number of codes that
/// the type has; types without codes of their own are always accepted.
#[verifier::external_body]
fn event_ref_ok(type_: u16, code: u16) -> (ok: bool)
    requires
        is_event_type(type_),
    ensures
        ok == code_in_range(type_, code),
{
    let event = input_linux::InputEvent {
        time: input_linux::EventTime::default(),
        kind: input_linux::EventKind::from_type(type_).unwrap(),
        code,
        value: 0,
    };
    input_linux::EventRef::new(&event).is_ok()
}

/// `input_linux::Key::from_code`: whether a number is the code of some key.
#[verifier::external_body]
fn key_from_code_ok(code: u16) -> (ok: bool)
    ensures
        ok == (code < KEY_COUNT),
{
    input_linux::Key::from_code(code).is_ok()
}

/// `input_linux::Key::is_button` on the key with the given code.
#[verifier::external_body]
fn key_code_is_button(code: u16) -> (button: bool)
    requires
        code < KEY_COUNT,
    ensures
        button == is_button_code(code),
{
    input_linux::Key::from_code(code).unwrap().is_button()
}

/// `input_linux::Key::is_key` on the key with the given code: true of every
/// key that is no button.
#[verifier::external_body]
fn key_code_is_key(code: u16) -> (key: bool)
    requires
        code < KEY_COUNT,
    ensures
        key == !is_button_code(code),
{
    input_linux::Key::from_code(code).unwrap().is_key()
}

/// `input_linux::RelativeAxis::from_code`: whether a number is the code of
/// some relative axis.
#[verifier::external_body]
pub(crate) fn relative_axis_from_code_ok(code: u16) -> (ok: bool)
    ensures
        ok == (code < 0x10),
{
    input_linux::RelativeAxis::from_code(code).is_ok()
}

/// `input_linux::AbsoluteAxis::from_code`: whether a number is the code of
/// some absolute axis.
#[verifier::external_body]
pub(crate) fn absolute_axis_from_code_ok(code: u16) -> (ok: bool)
    ensures
        ok == (code < 0x40),
{
    input_linux::AbsoluteAxis::from_code(code).is_ok()
}

/// A key or a button.
#[derive(Clone, Copy, Debug, PartialEq, Eq, PartialOrd, Ord, Hash, Structural)]
pub struct Key {
    code: u16,
}

impl View for Key {
    type V = u16;

    closed spec fn view(&self) -> u16 {
        self.code
    }
}

impl Key {
    #[verifier::type_invariant]
    closed spec fn code_is_known(self) -> bool {
        self.code < KEY_COUNT
    }

    /// The key with a code, where there is one.
    pub fn from_code(code: u16) -> (key: Option<Key>)
        ensures
            key is Some <==> code < KEY_COUNT,
            key matches Some(k) ==> k@ == code,
    {
        if key_from_code_ok(code) {
            Some(Key { code })
        } else {
            None
        }
    }

    pub fn code(&self) -> (code: u16)
        ensures
            code == self@,
            code < KEY_COUNT,
    {
        proof {
            use_type_invariant(self);
        }
        self.code
    }

    pub fn is_button(&self) -> (button: bool)
        ensures
            button == is_button_code(self@),
    {
        key_code_is_button(self.code())
    }

    pub fn is_key(&self) -> (key: bool)
        ensures
            key == !is_button_code(self@),
    {
        key_code_is_key(self.code())
    }
}

/// A key is nothing but its code.
pub proof fn key_is_its_code(a: Key, b: Key)
    ensures
        a == b <==> a@ == b@,
{
}

/// The type of an event.
#[derive(Clone, Copy, Debug, PartialEq, Eq, Structural)]
pub enum EventKind {
    Synchronize,
    Key,
    Relative,
    Absolute,
    Misc,
    Switch,
    Led,
    Sound,
    Autorepeat,
    ForceFeedback,
    Power,
    ForceFeedbackStatus,
    UInput,
    /// Any other type, by its number.
    Unknown(u16),
}

impl EventKind {
    /// The number of a type.
    pub open spec fn number(self) -> u16 {
        match self {
            EventKind::Synchronize => 0x00,
            EventKind::Key => 0x01,
            EventKind::Relative => 0x02,
            EventKind::Absolute => 0x03,
            EventKind::Misc => 0x04,
            EventKind::Switch => 0x05,
            EventKind::Led => 0x11,
            EventKind::Sound => 0x12,
            EventKind::Autorepeat => 0x14,
            EventKind::ForceFeedback => 0x15,
            EventKind::Power => 0x16,
            EventKind::ForceFeedbackStatus => 0x17,
            EventKind::UInput => 0x101,
            EventKind::Unknown(number) => number,
        }
    }

    /// Whether a type that has a name is given by it.
    pub open spec fn is_plain(self) -> bool {
        self matches EventKind::Unknown(number) ==> !is_named_type(number)
    }

    pub fn code(&self) -> (number: u16)
        ensures
            number == self.number(),
    {
        match *self {
            EventKind::Synchronize => 0x00,
            EventKind::Key => 0x01,
            EventKind::Relative => 0x02,
            EventKind::Absolute => 0x03,
            EventKind::Misc => 0x04,
            EventKind::Switch => 0x05,
            EventKind::Led => 0x11,
            EventKind::Sound => 0x12,
            EventKind::Autorepeat => 0x14,
            EventKind::ForceFeedback => 0x15,
            EventKind::Power => 0x16,
            EventKind::ForceFeedbackStatus => 0x17,
            EventKind::UInput => 0x101,
            EventKind::Unknown(number) => number,
        }
    }

    /// The kind with a number; a number that no other kind has is `Unknown`.
    pub fn from_type(number: u16) -> (kind: EventKind)
        ensures
            kind.number() == number,
            kind.is_plain(),
    {
        match number {
            0x00 => EventKind::Synchronize,
            0x01 => EventKind::Key,
            0x02 => EventKind::Relative,
            0x03 => EventKind::Absolute,
            0x04 => EventKind::Misc,
            0x05 => EventKind::Switch,
            0x11 => EventKind::Led,
            0x12 => EventKind::Sound,
            0x14 => EventKind::Autorepeat,
            0x15 => EventKind::ForceFeedback,
            0x16 => EventKind::Power,
            0x17 => EventKind::ForceFeedbackStatus,
            0x101 => EventKind::UInput,
            _ => EventKind::Unknown(number),
        }
    }
}

/// The numbers of the kinds that have a name.
pub open spec fn is_named_type(number: u16) -> bool {
    ||| number <= 0x05
    ||| number == 0x11
    ||| number == 0x12
    ||| 0x14 <= number <= 0x17
    ||| number == 0x101
}

/// When an event happened.
#[derive(Clone, Copy, Debug, PartialEq, Eq, Structural)]
pub struct EventTime {
    pub seconds: i64,
    pub microseconds: i64,
}

impl EventTime {
    pub open spec fn zero() -> EventTime {
        EventTime { seconds: 0, microseconds: 0 }
    }
}

impl Default for EventTime {
    fn default() -> (time: Self)
        ensures
            time == EventTime::zero(),
    {
        EventTime { seconds: 0, microseconds: 0 }
    }
}

/// An input event.
#[derive(Clone, Copy, Debug, PartialEq, Eq, Structural)]
pub struct InputEvent {
    pub time: EventTime,
    pub kind: EventKind,
    pub code: u16,
    pub value: i32,
}

/// The event without a timestamp that has a kind, a code and a value.
pub open spec fn event_of(kind: EventKind, code: u16, value: i32) -> InputEvent {
    InputEvent { time: EventTime::zero(), kind, code, value }
}

/// The event that ends a group of events.
pub open spec fn report_event() -> InputEvent {
    event_of(EventKind::Synchronize, 0, 0)
}

impl InputEvent {
    pub fn new(kind: EventKind, code: u16, value: i32) -> (event: InputEvent)
        ensures
            event == event_of(kind, code, value),
    {
        InputEvent { time: EventTime { seconds: 0, microseconds: 0 }, kind, code, value }
    }

    /// The event that ends a group of events.
    pub fn report() -> (event: InputEvent)
        ensures
            event == report_event(),
    {
        InputEvent::new(EventKind::Synchronize, 0, 0)
    }

    /// A key that goes down or up.
    pub fn key(key: Key, pressed: bool) -> (event: InputEvent)
        ensures
            event == event_of(
                EventKind::Key,
                key@,
                if pressed {
                    PRESSED
                } else {
                    RELEASED
                },
            ),
    {
        InputEvent::new(
            EventKind::Key,
            key.code(),
            if pressed {
                PRESSED
            } else {
                RELEASED
            },
        )
    }

    /// Whether the code is one that events of this kind may carry.
    pub open spec fn in_range(self) -> bool {
        match self.kind {
            EventKind::Unknown(_) => true,
            _ => code_in_range(self.kind.number(), self.code),
        }
    }
}

/// The code of an event lies outside the range of its kind.
#[derive(Clone, Copy, Debug, PartialEq, Eq, Structural)]
pub struct RangeError;

/// An input event with its code read according to its kind.
#[derive(Clone, Copy, Debug, PartialEq, Eq, Structural)]
pub enum EventRef {
    Synchronize,
    Key { key: Key, value: i32 },
    Relative { axis: u16, value: i32 },
    Absolute { axis: u16, value: i32 },
    Switch,
    Misc,
    Led,
    Autorepeat,
    Sound,
    ForceFeedback,
    ForceFeedbackStatus,
    UInput,
    Unknown,
}

impl EventRef {
    /// Whether this is the reading of an event.
    pub open spec fn reads(self, e: InputEvent) -> bool {
        match e.kind {
            EventKind::Synchronize => self is Synchronize,
            EventKind::Key => self matches EventRef::Key { key, value } && key@ == e.code && value
                == e.value,
            EventKind::Relative => self == (EventRef::Relative { axis: e.code, value: e.value }),
            EventKind::Absolute => self == (EventRef::Absolute { axis: e.code, value: e.value }),
            EventKind::Switch => self is Switch,
            EventKind::Misc => self is Misc,
            EventKind::Led => self is Led,
            EventKind::Autorepeat => self is Autorepeat,
            EventKind::Sound => self is Sound,
            EventKind::ForceFeedback => self is ForceFeedback,
            EventKind::ForceFeedbackStatus => self is ForceFeedbackStatus,
            EventKind::UInput => self is UInput,
            EventKind::Power | EventKind::Unknown(_) => self is Unknown,
        }
    }

    /// Reads an event; an error where its code is out of range.
    pub fn new(e: &InputEvent) -> (r: Result<EventRef, RangeError>)
        ensures
            r is Ok <==> e.in_range(),
            r matches Ok(read) ==> read.reads(*e),
    {
        if let EventKind::Unknown(_) = e.kind {
            return Ok(EventRef::Unknown);
        }
        if !event_ref_ok(e.kind.code(), e.code) {
            return Err(RangeError);
        }
        Ok(
            match e.kind {
                EventKind::Synchronize => EventRef::Synchronize,
                EventKind::Key => {
                    match Key::from_code(e.code) {
                        Some(key) => EventRef::Key { key, value: e.value },
                        None => {
                            return Err(RangeError);
                        },
                    }
                },
                EventKind::Relative => EventRef::Relative { axis: e.code, value: e.value },
                EventKind::Absolute => EventRef::Absolute { axis: e.code, value: e.value },
                EventKind::Switch => EventRef::Switch,
                EventKind::Misc => EventRef::Misc,
                EventKind::Led => EventRef::Led,
                EventKind::Autorepeat => EventRef::Autorepeat,
                EventKind::Sound => EventRef::Sound,
                EventKind::ForceFeedback => EventRef::ForceFeedback,
                EventKind::ForceFeedbackStatus => EventRef::ForceFeedbackStatus,
                EventKind::UInput => EventRef::UInput,
                EventKind::Power => EventRef::Unknown,
                EventKind::Unknown(_) => EventRef::Unknown,
            },
        )
    }
}

/// A set of keys, kept as an `input_linux::Bitmask`.
#[verifier::external_body]
pub struct KeyMask {
    mask: input_linux::Bitmask<input_linux::Key>,
}

/// The codes of the keys in a set.
pub uninterp spec fn mask_keys(mask: KeyMask) -> Set<u16>;

/// The members of a set that are below a bound, in ascending order.
pub open spec fn members_below(set: Set<u16>, bound: nat) -> Seq<u16>
    decreases bound,
{
    if bound == 0 {
        Seq::empty()
    } else {
        let last = (bound - 1) as u16;
        if set.contains(last) {
            members_below(set, (bound - 1) as nat).push(last)
        } else {
            members_below(set, (bound - 1) as nat)
        }
    }
}

/// The key codes in a set, in ascending order.
pub open spec fn ascending(set: Set<u16>) -> Seq<u16> {
    members_below(set, KEY_COUNT as nat)
}

pub(crate) proof fn lemma_members_below(set: Set<u16>, bound: nat)
    requires
        bound <= u16::MAX,
    ensures
        forall|i: int, j: int|
            0 <= i < j < members_below(set, bound).len() ==> members_below(set, bound)[i]
                < members_below(set, bound)[j],
        forall|c: u16|
            #![trigger members_below(set, bound).contains(c)]
            #![trigger set.contains(c)]
            members_below(set, bound).contains(c) <==> set.contains(c) && c < bound,
    decreases bound,
{
    if bound > 0 {
        let last = (bound - 1) as u16;
        let shorter = members_below(set, (bound - 1) as nat);
        let all = members_below(set, bound);
        lemma_members_below(set, (bound - 1) as nat);
        assert forall|i: int| 0 <= i < shorter.len() implies shorter[i] < last by {
            assert(shorter.contains(shorter[i]));
        }
        assert forall|c: u16| all.contains(c) <==> set.contains(c) && c < bound by {
            if set.contains(c) && c < bound {
                if c == last {
                    assert(all[all.len() - 1] == c);
                } else {
                    assert(shorter.contains(c));
                    let i = choose|i: int| 0 <= i < shorter.len() && shorter[i] == c;
                    assert(all[i] == c);
                }
            }
            if all.contains(c) {
                let i = choose|i: int| 0 <= i < all.len() && all[i] == c;
                if i < shorter.len() {
                    assert(shorter[i] == c);
                    assert(shorter.contains(c));
                }
            }
        }
    }
}

/// The ascending list of a set holds each key code of the set, and each once.
pub proof fn ascending_lists_the_set(set: Set<u16>)
    ensures
        forall|i: int, j: int|
            0 <= i < j < ascending(set).len() ==> ascending(set)[i] < ascending(set)[j],
        forall|c: u16|
            #![trigger ascending(set).contains(c)]
            #![trigger set.contains(c)]
            ascending(set).contains(c) <==> set.contains(c) && c < KEY_COUNT,
{
    lemma_members_below(set, KEY_COUNT as nat);
}

impl KeyMask {
    /// `input_linux::Bitmask::default`: the empty set.
    #[verifier::external_body]
    pub(crate) fn new() -> (mask: KeyMask)
        ensures
            mask_keys(mask) == Set::<u16>::empty(),
    {
        KeyMask { mask: Default::default() }
    }

    /// `input_linux::Bitmask::get`: whether the key with a code is in the set.
    #[verifier::external_body]
    pub(crate) fn get(&self, code: u16) -> (set: bool)
        requires
            code < KEY_COUNT,
        ensures
            set == mask_keys(*self).contains(code),
    {
        self.mask.get(input_linux::Key::from_code(code).unwrap())
    }

    /// `input_linux::Bitmask::insert`: adds one key and leaves the rest.
    #[verifier::external_body]
    pub(crate) fn insert(&mut self, code: u16)
        requires
            code < KEY_COUNT,
        ensures
            mask_keys(*final(self)) == mask_keys(*old(self)).insert(code),
    {
        self.mask.insert(input_linux::Key::from_code(code).unwrap())
    }

    /// `input_linux::Bitmask::remove`: takes one key out and leaves the rest.
    #[verifier::external_body]
    pub(crate) fn remove(&mut self, code: u16)
        requires
            code < KEY_COUNT,
        ensures
            mask_keys(*final(self)) == mask_keys(*old(self)).remove(code),
    {
        self.mask.remove(input_linux::Key::from_code(code).unwrap())
    }

    /// `input_linux::Bitmask::clear`: leaves the set empty.
    #[verifier::external_body]
    pub(crate) fn clear(&mut self)
        ensures
            mask_keys(*final(self)) == Set::<u16>::empty(),
    {
        self.mask.clear()
    }

    /// `input_linux::Bitmask::iter`: the keys of the set in ascending order of
    /// their codes, each one once.
    #[verifier::external_body]
    pub(crate) fn codes(&self) -> (codes: Vec<u16>)
        ensures
            codes@ == ascending(mask_keys(*self)),
    {
        self.mask.iter().map(|key| key.code()).collect()
    }
}

/// A kind is found by its number, and has the number that it was found by.
pub proof fn kinds_have_their_numbers(number: u16, kind: EventKind, code: u16)
    requires
        call_ensures(EventKind::from_type, (number,), kind),
        call_ensures(EventKind::code, (&kind,), code),
    ensures
        code == number,
        number == 0 <==> kind is Synchronize,
        number == 1 <==> kind is Key,
        number == 2 <==> kind is Relative,
        number == 3 <==> kind is Absolute,
        number == 4 <==> kind is Misc,
        number == 5 <==> kind is Switch,
        number == 0x11 <==> kind is Led,
        number == 0x12 <==> kind is Sound,
        number == 0x14 <==> kind is Autorepeat,
        number == 0x15 <==> kind is ForceFeedback,
        number == 0x16 <==> kind is Power,
        number == 0x17 <==> kind is ForceFeedbackStatus,
        number == 0x101 <==> kind is UInput,
{
}

/// Reading an event loses nothing of a key or of an axis: the code and the value
/// are there again. It fails exactly where the code is none that the kind has.
pub proof fn events_are_read_as_their_kind(e: InputEvent, read: Result<EventRef, RangeError>)
    requires
        call_ensures(EventRef::new, (&e,), read),
    ensures
        e.kind is Key ==> {
            &&& read is Err <==> e.code >= 0x300
            &&& read matches Ok(own) ==> (own matches EventRef::Key { key, value } && key@ == e.code
                && value == e.value)
        },
        e.kind is Relative ==> {
            &&& read is Err <==> e.code >= 0x10
            &&& read matches Ok(own) ==> own == (EventRef::Relative { axis: e.code, value: e.value })
        },
        e.kind is Absolute ==> {
            &&& read is Err <==> e.code >= 0x40
            &&& read matches Ok(own) ==> own == (EventRef::Absolute { axis: e.code, value: e.value })
        },
        e.kind is Synchronize ==> (read is Err <==> e.code >= 0x10) && (read matches Ok(own)
            ==> own is Synchronize),
        e.kind is Misc ==> (read is Err <==> e.code >= 0x08) && (read matches Ok(own)
            ==> own is Misc),
        e.kind is Switch ==> (read is Err <==> e.code >= 0x11) && (read matches Ok(own)
            ==> own is Switch),
        e.kind is Led ==> (read is Err <==> e.code >= 0x10) && (read matches Ok(own) ==> own is Led),
        e.kind is Sound ==> (read is Err <==> e.code >= 0x08) && (read matches Ok(own)
            ==> own is Sound),
        e.kind is Power || e.kind is Unknown ==> read == Ok::<EventRef, RangeError>(
            EventRef::Unknown,
        ),
{
}

/// An event that is made has what it is made of and no timestamp; a key that goes
/// down has the value one, and one that goes up the value zero.
pub proof fn events_are_made_of_their_parts(
    kind: EventKind,
    code: u16,
    value: i32,
    event: InputEvent,
    report: InputEvent,
    key: Key,
    pressed: bool,
    keyed: InputEvent,
)
    requires
        call_ensures(InputEvent::new, (kind, code, value), event),
        call_ensures(InputEvent::report, (), report),
        call_ensures(InputEvent::key, (key, pressed), keyed),
    ensures
        event.kind == kind && event.code == code && event.value == value,
        event.time.seconds == 0 && event.time.microseconds == 0,
        report.kind is Synchronize && report.code == 0 && report.value == 0,
        keyed.kind is Key && keyed.code == key@,
        keyed.value == if pressed {
            1int
        } else {
            0
        },
        keyed.time == event.time && report.time == event.time,
{
}

/// A key is a button or not by its code, and there is one for each code that is
/// below the number of codes.
pub proof fn keys_are_buttons_or_not(
    code: u16,
    key: Option<Key>,
    own: u16,
    button: bool,
    other: bool,
)
    requires
        call_ensures(Key::from_code, (code,), key),
        key matches Some(k) ==> call_ensures(Key::code, (&k,), own) && call_ensures(
            Key::is_button,
            (&k,),
            button,
        ) && call_ensures(Key::is_key, (&k,), other),
    ensures
        key is Some <==> code < 0x300,
        key is Some ==> {
            &&& own == code
            &&& button <==> 0x100 <= code < 0x160 || 0x2c0 <= code
            &&& other == !button
        },
{
}

} // verus!
