//! Virtual input devices, and what they can do.

use crate::input::{
    ascending, is_button_code, lemma_members_below, mask_keys, members_below, Key, KeyMask, ABS_X,
    ABS_Y, KEY_COUNT, REL_HORIZONTAL_WHEEL, REL_WHEEL, REL_X, REL_Y,
};
use vstd::prelude::*;

verus! {

/// The numbers of the kinds of events, of properties, and of the codes of some
/// kinds of events.
pub const EVENT_COUNT: u16 = 0x20;

pub const PROPERTY_COUNT: u16 = 0x20;

pub const REL_COUNT: u16 = 0x10;

pub const ABS_COUNT: u16 = 0x40;

pub const MISC_COUNT: u16 = 0x08;

pub const LED_COUNT: u16 = 0x10;

pub const SOUND_COUNT: u16 = 0x08;

pub const SWITCH_COUNT: u16 = 0x11;

/// The types of key, relative, absolute and autorepeat events.
pub const EV_KEY: u16 = 0x01;

pub const EV_REL: u16 = 0x02;

pub const EV_ABS: u16 = 0x03;

pub const EV_REP: u16 = 0x14;

/// The largest absolute coordinate.
pub const ABS_MAXIMUM: i32 = 0x8000;

proof fn lemma_one_more(codes: Seq<u16>, i: int)
    requires
        0 <= i < codes.len(),
    ensures
        codes.take(i + 1).to_set() == codes.take(i).to_set().insert(codes[i]),
{
    let shorter = codes.take(i);
    let longer = codes.take(i + 1);
    assert forall|c: u16| longer.to_set().contains(c) <==> shorter.to_set().insert(
        codes[i],
    ).contains(c) by {
        if longer.contains(c) {
            let k = choose|k: int| 0 <= k < longer.len() && longer[k] == c;
            assert(k < i ==> shorter[k] == c);
        }
        if shorter.contains(c) {
            let k = choose|k: int| 0 <= k < shorter.len() && shorter[k] == c;
            assert(longer[k] == c);
        }
        if c == codes[i] {
            assert(longer[i] == c);
        }
    }
    assert(longer.to_set() =~= shorter.to_set().insert(codes[i]));
}

/// The identity of a device.
#[derive(Debug, Clone, Copy, PartialEq, Eq, Structural)]
pub struct InputId {
    pub bustype: u16,
    pub vendor: u16,
    pub product: u16,
    pub version: u16,
}

/// What is known of an absolute axis.
#[derive(Debug, Clone, Copy, PartialEq, Eq, Structural)]
pub struct AbsoluteInfo {
    pub value: i32,
    pub minimum: i32,
    pub maximum: i32,
    pub fuzz: i32,
    pub flat: i32,
    pub resolution: i32,
}

#[derive(Debug, Clone, Copy, PartialEq, Eq, Structural)]
pub struct AbsoluteInfoSetup {
    pub axis: u16,
    pub info: AbsoluteInfo,
}

/// What a kernel device says that it can do.
#[derive(Debug)]
pub struct EvdevBits {
    pub properties: Vec<u16>,
    pub events: Vec<u16>,
    pub keys: Vec<Key>,
    pub relative: Vec<u16>,
    pub misc: Vec<u16>,
    pub led: Vec<u16>,
    pub sound: Vec<u16>,
    pub switch: Vec<u16>,
    pub absolute: Vec<AbsoluteInfoSetup>,
}

/// Whether some codes are below a number.
pub open spec fn all_below(codes: Seq<u16>, count: u16) -> bool {
    forall|i: int| 0 <= i < codes.len() ==> (#[trigger] codes[i]) < count
}

impl EvdevBits {
    /// Each code is one that there is.
    pub open spec fn wf(self) -> bool {
        &&& all_below(self.properties@, PROPERTY_COUNT)
        &&& all_below(self.events@, EVENT_COUNT)
        &&& all_below(self.relative@, REL_COUNT)
        &&& all_below(self.misc@, MISC_COUNT)
        &&& all_below(self.led@, LED_COUNT)
        &&& all_below(self.sound@, SOUND_COUNT)
        &&& all_below(self.switch@, SWITCH_COUNT)
        &&& forall|i: int|
            0 <= i < self.absolute@.len() ==> (#[trigger] self.absolute@[i]).axis < ABS_COUNT
    }
}

/// What a code of a device is a code of.
#[derive(Debug, Clone, Copy, PartialEq, Eq, Structural)]
pub enum BitKind {
    Property,
    Event,
    Key,
    Relative,
    Absolute,
    Misc,
    Led,
    Sound,
    Switch,
}

/// The codes that a device has, but for its keys, kept as an
/// `input_linux::Bitmask` of each kind.
#[verifier::external_body]
pub struct DeviceBits {
    props: input_linux::Bitmask<input_linux::InputProperty>,
    events: input_linux::Bitmask<input_linux::EventKind>,
    rel: input_linux::Bitmask<input_linux::RelativeAxis>,
    abs: input_linux::Bitmask<input_linux::AbsoluteAxis>,
    misc: input_linux::Bitmask<input_linux::MiscKind>,
    led: input_linux::Bitmask<input_linux::LedKind>,
    sound: input_linux::Bitmask<input_linux::SoundKind>,
    switch: input_linux::Bitmask<input_linux::SwitchKind>,
}

/// The codes in the sets, each with its kind.
pub uninterp spec fn device_bits(bits: DeviceBits) -> Set<(BitKind, u16)>;

/// The codes of one kind.
pub open spec fn of_kind(bits: Set<(BitKind, u16)>, kind: BitKind) -> Set<u16> {
    Set::new(|code: u16| bits.contains((kind, code)))
}

/// The codes of one kind that there are, in ascending order.
pub open spec fn listed(bits: Set<(BitKind, u16)>, kind: BitKind) -> Seq<u16> {
    members_below(of_kind(bits, kind), count_of(kind) as nat)
}

/// The number that the codes of a kind are below.
pub open spec fn count_of(kind: BitKind) -> u16 {
    match kind {
        BitKind::Property => PROPERTY_COUNT,
        BitKind::Event => EVENT_COUNT,
        BitKind::Key => KEY_COUNT,
        BitKind::Relative => REL_COUNT,
        BitKind::Absolute => ABS_COUNT,
        BitKind::Misc => MISC_COUNT,
        BitKind::Led => LED_COUNT,
        BitKind::Sound => SOUND_COUNT,
        BitKind::Switch => SWITCH_COUNT,
    }
}

impl DeviceBits {
    /// `input_linux::Bitmask::default`, for each kind: nothing is set.
    #[verifier::external_body]
    fn new() -> (bits: DeviceBits)
        ensures
            device_bits(bits) == Set::<(BitKind, u16)>::empty(),
    {
        DeviceBits {
            props: Default::default(),
            events: Default::default(),
            rel: Default::default(),
            abs: Default::default(),
            misc: Default::default(),
            led: Default::default(),
            sound: Default::default(),
            switch: Default::default(),
        }
    }

    /// `input_linux::Bitmask::insert` on the properties: adds one and leaves the rest.
    #[verifier::external_body]
    fn insert_property(&mut self, code: u16)
        requires
            code < PROPERTY_COUNT,
        ensures
            device_bits(*final(self)) == device_bits(*old(self)).insert((BitKind::Property, code)),
    {
        self.props.insert(input_linux::InputProperty::from_code(code).unwrap())
    }

    /// `input_linux::Bitmask::insert` on the kinds of events: adds one and leaves the rest.
    #[verifier::external_body]
    fn insert_event(&mut self, code: u16)
        requires
            code < EVENT_COUNT,
        ensures
            device_bits(*final(self)) == device_bits(*old(self)).insert((BitKind::Event, code)),
    {
        self.events.insert(input_linux::EventKind::from_type(code).unwrap())
    }

    /// `input_linux::Bitmask::insert` on the relative axes: adds one and leaves the rest.
    #[verifier::external_body]
    fn insert_relative(&mut self, code: u16)
        requires
            code < REL_COUNT,
        ensures
            device_bits(*final(self)) == device_bits(*old(self)).insert((BitKind::Relative, code)),
    {
        self.rel.insert(input_linux::RelativeAxis::from_code(code).unwrap())
    }

    /// `input_linux::Bitmask::insert` on the absolute axes: adds one and leaves the rest.
    #[verifier::external_body]
    fn insert_absolute(&mut self, code: u16)
        requires
            code < ABS_COUNT,
        ensures
            device_bits(*final(self)) == device_bits(*old(self)).insert((BitKind::Absolute, code)),
    {
        self.abs.insert(input_linux::AbsoluteAxis::from_code(code).unwrap())
    }

    /// `input_linux::Bitmask::insert` on the miscellaneous codes: adds one and leaves the rest.
    #[verifier::external_body]
    fn insert_misc(&mut self, code: u16)
        requires
            code < MISC_COUNT,
        ensures
            device_bits(*final(self)) == device_bits(*old(self)).insert((BitKind::Misc, code)),
    {
        self.misc.insert(input_linux::MiscKind::from_code(code).unwrap())
    }

    /// `input_linux::Bitmask::insert` on the lights: adds one and leaves the rest.
    #[verifier::external_body]
    fn insert_led(&mut self, code: u16)
        requires
            code < LED_COUNT,
        ensures
            device_bits(*final(self)) == device_bits(*old(self)).insert((BitKind::Led, code)),
    {
        self.led.insert(input_linux::LedKind::from_code(code).unwrap())
    }

    /// `input_linux::Bitmask::insert` on the sounds: adds one and leaves the rest.
    #[verifier::external_body]
    fn insert_sound(&mut self, code: u16)
        requires
            code < SOUND_COUNT,
        ensures
            device_bits(*final(self)) == device_bits(*old(self)).insert((BitKind::Sound, code)),
    {
        self.sound.insert(input_linux::SoundKind::from_code(code).unwrap())
    }

    /// `input_linux::Bitmask::insert` on the switches: adds one and leaves the rest.
    #[verifier::external_body]
    fn insert_switch(&mut self, code: u16)
        requires
            code < SWITCH_COUNT,
        ensures
            device_bits(*final(self)) == device_bits(*old(self)).insert((BitKind::Switch, code)),
    {
        self.switch.insert(input_linux::SwitchKind::from_code(code).unwrap())
    }

    /// `input_linux::Bitmask::iter` over the properties: those that are set, in
    /// ascending order of their codes, each one once.
    #[verifier::external_body]
    fn property_codes(&self) -> (codes: Vec<u16>)
        ensures
            codes@ == listed(device_bits(*self), BitKind::Property),
    {
        self.props.iter().map(|bit| bit.code()).collect()
    }

    /// `input_linux::Bitmask::iter` over the kinds of events: those that are set, in
    /// ascending order of their codes, each one once.
    #[verifier::external_body]
    fn event_codes(&self) -> (codes: Vec<u16>)
        ensures
            codes@ == listed(device_bits(*self), BitKind::Event),
    {
        self.events.iter().map(|bit| bit.code()).collect()
    }

    /// `input_linux::Bitmask::iter` over the relative axes: those that are set, in
    /// ascending order of their codes, each one once.
    #[verifier::external_body]
    fn relative_codes(&self) -> (codes: Vec<u16>)
        ensures
            codes@ == listed(device_bits(*self), BitKind::Relative),
    {
        self.rel.iter().map(|bit| bit.code()).collect()
    }

    /// `input_linux::Bitmask::iter` over the absolute axes: those that are set, in
    /// ascending order of their codes, each one once.
    #[verifier::external_body]
    fn absolute_codes(&self) -> (codes: Vec<u16>)
        ensures
            codes@ == listed(device_bits(*self), BitKind::Absolute),
    {
        self.abs.iter().map(|bit| bit.code()).collect()
    }

    /// `input_linux::Bitmask::iter` over the miscellaneous codes: those that are set, in
    /// ascending order of their codes, each one once.
    #[verifier::external_body]
    fn misc_codes(&self) -> (codes: Vec<u16>)
        ensures
            codes@ == listed(device_bits(*self), BitKind::Misc),
    {
        self.misc.iter().map(|bit| bit.code()).collect()
    }

    /// `input_linux::Bitmask::iter` over the lights: those that are set, in
    /// ascending order of their codes, each one once.
    #[verifier::external_body]
    fn led_codes(&self) -> (codes: Vec<u16>)
        ensures
            codes@ == listed(device_bits(*self), BitKind::Led),
    {
        self.led.iter().map(|bit| bit.code()).collect()
    }

    /// `input_linux::Bitmask::iter` over the sounds: those that are set, in
    /// ascending order of their codes, each one once.
    #[verifier::external_body]
    fn sound_codes(&self) -> (codes: Vec<u16>)
        ensures
            codes@ == listed(device_bits(*self), BitKind::Sound),
    {
        self.sound.iter().map(|bit| bit.code()).collect()
    }

    /// `input_linux::Bitmask::iter` over the switches: those that are set, in
    /// ascending order of their codes, each one once.
    #[verifier::external_body]
    fn switch_codes(&self) -> (codes: Vec<u16>)
        ensures
            codes@ == listed(device_bits(*self), BitKind::Switch),
    {
        self.switch.iter().map(|bit| bit.code()).collect()
    }

    /// Adds a code.
    fn insert(&mut self, kind: BitKind, code: u16)
        requires
            kind !is Key,
            code < count_of(kind),
        ensures
            device_bits(*final(self)) == device_bits(*old(self)).insert((kind, code)),
    {
        match kind {
            BitKind::Property => self.insert_property(code),
            BitKind::Event => self.insert_event(code),
            BitKind::Relative => self.insert_relative(code),
            BitKind::Absolute => self.insert_absolute(code),
            BitKind::Misc => self.insert_misc(code),
            BitKind::Led => self.insert_led(code),
            BitKind::Sound => self.insert_sound(code),
            BitKind::Switch => self.insert_switch(code),
            BitKind::Key => {},
        }
    }

    /// Adds some codes.
    fn insert_all(&mut self, kind: BitKind, codes: &Vec<u16>)
        requires
            kind !is Key,
            all_below(codes@, count_of(kind)),
        ensures
            device_bits(*final(self)) == with_all(device_bits(*old(self)), kind, codes@),
    {
        let ghost before = device_bits(*self);
        assert(before =~= with_all(before, kind, codes@.take(0)));
        for i in 0..codes.len()
            invariant
                kind !is Key,
                all_below(codes@, count_of(kind)),
                device_bits(*self) == with_all(before, kind, codes@.take(i as int)),
        {
            self.insert(kind, codes[i]);
            proof {
                lemma_one_more(codes@, i as int);
            }
            assert(device_bits(*self) =~= with_all(before, kind, codes@.take(i + 1)));
        }
        assert(codes@.take(codes@.len() as int) =~= codes@);
    }

    /// The codes of a kind, in ascending order.
    fn codes(&self, kind: BitKind) -> (codes: Vec<u16>)
        requires
            kind !is Key,
        ensures
            codes@ == listed(device_bits(*self), kind),
    {
        match kind {
            BitKind::Property => self.property_codes(),
            BitKind::Event => self.event_codes(),
            BitKind::Relative => self.relative_codes(),
            BitKind::Absolute => self.absolute_codes(),
            BitKind::Misc => self.misc_codes(),
            BitKind::Led => self.led_codes(),
            BitKind::Sound => self.sound_codes(),
            BitKind::Switch => self.switch_codes(),
            BitKind::Key => Vec::new(),
        }
    }
}

/// With some more codes of one kind.
pub open spec fn with_all(bits: Set<(BitKind, u16)>, kind: BitKind, codes: Seq<u16>) -> Set<
    (BitKind, u16),
> {
    bits.union(Set::new(|bit: (BitKind, u16)| bit.0 == kind && codes.to_set().contains(bit.1)))
}

/// A step of making a device.
#[derive(Debug, PartialEq, Eq)]
pub enum UInputStep {
    /// Let the device have a code.
    Bit { kind: BitKind, code: u16 },
    /// Create the device.
    Create {
        id: InputId,
        name: String,
        /// How many effects of force feedback it can play at a time.
        ff_effects: u32,
        abs: Vec<AbsoluteInfoSetup>,
    },
}

/// The steps that let a device have some codes.
pub open spec fn bit_steps(kind: BitKind, codes: Seq<u16>) -> Seq<UInputStep> {
    codes.map_values(|code: u16| UInputStep::Bit { kind, code })
}

/// What a device is to be, as contracts speak of it.
#[verifier::ext_equal]
pub ghost struct BuilderModel {
    pub name: Seq<char>,
    pub id: InputId,
    pub abs: Seq<AbsoluteInfoSetup>,
    pub events: Set<u16>,
    pub keys: Set<u16>,
    pub abs_axes: Set<u16>,
    pub props: Set<u16>,
    pub rel: Set<u16>,
    pub misc: Set<u16>,
    pub led: Set<u16>,
    pub sound: Set<u16>,
    pub switch: Set<u16>,
}

/// The codes of buttons, or those of all other keys.
pub open spec fn key_codes(buttons: bool) -> Set<u16> {
    Set::new(|code: u16| code < KEY_COUNT && is_button_code(code) == buttons)
}

/// An absolute axis of the screen.
pub open spec fn screen_axis(axis: u16) -> AbsoluteInfoSetup {
    AbsoluteInfoSetup {
        axis,
        info: AbsoluteInfo {
            value: 0,
            minimum: 0,
            maximum: ABS_MAXIMUM,
            fuzz: 0,
            flat: 0,
            resolution: 1,
        },
    }
}

impl BuilderModel {
    /// A device that can do nothing.
    pub open spec fn nothing() -> BuilderModel {
        BuilderModel {
            name: Seq::empty(),
            id: InputId { bustype: 0, vendor: 0, product: 0, version: 0 },
            abs: Seq::empty(),
            events: Set::empty(),
            keys: Set::empty(),
            abs_axes: Set::empty(),
            props: Set::empty(),
            rel: Set::empty(),
            misc: Set::empty(),
            led: Set::empty(),
            sound: Set::empty(),
            switch: Set::empty(),
        }
    }

    /// With another absolute axis.
    pub open spec fn with_axis(self, setup: AbsoluteInfoSetup) -> BuilderModel {
        BuilderModel {
            abs: self.abs.push(setup),
            abs_axes: self.abs_axes.insert(setup.axis),
            ..self
        }
    }

    /// With some more absolute axes.
    pub open spec fn with_axes(self, setups: Seq<AbsoluteInfoSetup>) -> BuilderModel
        decreases setups.len(),
    {
        if setups.len() == 0 {
            self
        } else {
            self.with_axes(setups.drop_last()).with_axis(setups.last())
        }
    }

    /// With the buttons.
    pub open spec fn with_buttons(self) -> BuilderModel {
        BuilderModel {
            events: self.events.insert(EV_KEY),
            keys: self.keys.union(key_codes(true)),
            ..self
        }
    }

    /// With the keys, and with their repetition where asked for.
    pub open spec fn with_keys(self, repeat: bool) -> BuilderModel {
        BuilderModel {
            events: if repeat {
                self.events.insert(EV_KEY).insert(EV_REP)
            } else {
                self.events.insert(EV_KEY)
            },
            keys: self.keys.union(key_codes(false)),
            ..self
        }
    }

    /// With what a mouse can do.
    pub open spec fn with_mouse(self) -> BuilderModel {
        let buttons = self.with_buttons();
        BuilderModel {
            events: buttons.events.insert(EV_REL),
            rel: buttons.rel.insert(REL_X).insert(REL_Y).insert(REL_WHEEL).insert(
                REL_HORIZONTAL_WHEEL,
            ),
            ..buttons
        }
    }

    /// With what a tablet can do.
    pub open spec fn with_tablet(self) -> BuilderModel {
        let axes = self.with_buttons().with_axis(screen_axis(ABS_X)).with_axis(
            screen_axis(ABS_Y),
        );
        BuilderModel {
            events: axes.events.insert(EV_ABS).insert(EV_REL),
            rel: axes.rel.insert(REL_WHEEL).insert(REL_HORIZONTAL_WHEEL),
            ..axes
        }
    }

    /// With what a kernel device can do.
    pub open spec fn with_evdev(self, bits: EvdevBits) -> BuilderModel {
        let more = BuilderModel {
            props: self.props.union(bits.properties@.to_set()),
            events: self.events.union(bits.events@.to_set()),
            keys: self.keys.union(bits.keys@.map_values(|k: Key| k@).to_set()),
            rel: self.rel.union(bits.relative@.to_set()),
            misc: self.misc.union(bits.misc@.to_set()),
            led: self.led.union(bits.led@.to_set()),
            sound: self.sound.union(bits.sound@.to_set()),
            switch: self.switch.union(bits.switch@.to_set()),
            ..self
        };
        more.with_axes(bits.absolute@)
    }

    /// The steps before the device is made: each thing that it can do.
    pub open spec fn told(self) -> Seq<UInputStep> {
        bit_steps(BitKind::Property, members_below(self.props, PROPERTY_COUNT as nat)) + bit_steps(
            BitKind::Event,
            members_below(self.events, EVENT_COUNT as nat),
        ) + bit_steps(BitKind::Key, ascending(self.keys)) + bit_steps(
            BitKind::Relative,
            members_below(self.rel, REL_COUNT as nat),
        ) + bit_steps(BitKind::Absolute, members_below(self.abs_axes, ABS_COUNT as nat))
            + bit_steps(BitKind::Misc, members_below(self.misc, MISC_COUNT as nat)) + bit_steps(
            BitKind::Led,
            members_below(self.led, LED_COUNT as nat),
        ) + bit_steps(BitKind::Sound, members_below(self.sound, SOUND_COUNT as nat)) + bit_steps(
            BitKind::Switch,
            members_below(self.switch, SWITCH_COUNT as nat),
        )
    }

    /// Whether a step makes the device: with its identity, its name and its
    /// absolute axes, and without force feedback.
    pub open spec fn is_made_by(self, step: UInputStep) -> bool {
        step matches UInputStep::Create { id, name, ff_effects, abs } && id == self.id && name@
            == self.name && ff_effects == 0 && abs@ == self.abs
    }

    /// Whether some steps make the device: it is told of each thing that it can
    /// do, and at last it is made.
    pub open spec fn is_made_in(self, steps: Seq<UInputStep>) -> bool {
        &&& steps.len() == self.told().len() + 1
        &&& steps.drop_last() == self.told()
        &&& self.is_made_by(steps.last())
    }
}

/// The codes of a kind that a device has.
pub open spec fn codes_of(model: BuilderModel, kind: BitKind) -> Set<u16> {
    match kind {
        BitKind::Property => model.props,
        BitKind::Event => model.events,
        BitKind::Key => model.keys,
        BitKind::Relative => model.rel,
        BitKind::Absolute => model.abs_axes,
        BitKind::Misc => model.misc,
        BitKind::Led => model.led,
        BitKind::Sound => model.sound,
        BitKind::Switch => model.switch,
    }
}

/// The steps that tell of the codes of one kind.
spec fn part(model: BuilderModel, kind: BitKind) -> Seq<UInputStep> {
    bit_steps(kind, members_below(codes_of(model, kind), count_of(kind) as nat))
}

/// The steps before the device is made.
spec fn parts(model: BuilderModel) -> Seq<UInputStep> {
    part(model, BitKind::Property) + part(model, BitKind::Event) + part(model, BitKind::Key) + part(
        model,
        BitKind::Relative,
    ) + part(model, BitKind::Absolute) + part(model, BitKind::Misc) + part(model, BitKind::Led)
        + part(model, BitKind::Sound) + part(model, BitKind::Switch)
}

proof fn lemma_either(a: Seq<UInputStep>, b: Seq<UInputStep>, step: UInputStep)
    ensures
        (a + b).contains(step) <==> a.contains(step) || b.contains(step),
{
    if a.contains(step) {
        let i = choose|i: int| 0 <= i < a.len() && a[i] == step;
        assert((a + b)[i] == step);
    }
    if b.contains(step) {
        let i = choose|i: int| 0 <= i < b.len() && b[i] == step;
        assert((a + b)[a.len() + i] == step);
    }
    if (a + b).contains(step) {
        let i = choose|i: int| 0 <= i < (a + b).len() && (a + b)[i] == step;
        assert(if i < a.len() {
            a[i] == step
        } else {
            b[i - a.len()] == step
        });
    }
}

proof fn lemma_part(model: BuilderModel, kind: BitKind, step: UInputStep)
    ensures
        part(model, kind).contains(step) <==> (step matches UInputStep::Bit { kind: k, code } && k
            == kind && codes_of(model, kind).contains(code) && code < count_of(kind)),
{
    let codes = members_below(codes_of(model, kind), count_of(kind) as nat);
    lemma_members_below(codes_of(model, kind), count_of(kind) as nat);
    if part(model, kind).contains(step) {
        let i = choose|i: int| 0 <= i < part(model, kind).len() && part(model, kind)[i] == step;
        assert(codes.contains(codes[i]));
    }
    if let UInputStep::Bit { kind: k, code } = step {
        if k == kind && codes.contains(code) {
            let i = choose|i: int| 0 <= i < codes.len() && codes[i] == code;
            assert(part(model, kind)[i] == step);
        }
    }
}

proof fn lemma_parts(model: BuilderModel, step: UInputStep)
    ensures
        parts(model).contains(step) <==> (step matches UInputStep::Bit { kind, code } && codes_of(
            model,
            kind,
        ).contains(code) && code < count_of(kind)),
{
    lemma_part(model, BitKind::Property, step);
    lemma_part(model, BitKind::Event, step);
    lemma_part(model, BitKind::Key, step);
    lemma_part(model, BitKind::Relative, step);
    lemma_part(model, BitKind::Absolute, step);
    lemma_part(model, BitKind::Misc, step);
    lemma_part(model, BitKind::Led, step);
    lemma_part(model, BitKind::Sound, step);
    lemma_part(model, BitKind::Switch, step);
    let all = part(model, BitKind::Property);
    lemma_either(all, part(model, BitKind::Event), step);
    let all = all + part(model, BitKind::Event);
    lemma_either(all, part(model, BitKind::Key), step);
    let all = all + part(model, BitKind::Key);
    lemma_either(all, part(model, BitKind::Relative), step);
    let all = all + part(model, BitKind::Relative);
    lemma_either(all, part(model, BitKind::Absolute), step);
    let all = all + part(model, BitKind::Absolute);
    lemma_either(all, part(model, BitKind::Misc), step);
    let all = all + part(model, BitKind::Misc);
    lemma_either(all, part(model, BitKind::Led), step);
    let all = all + part(model, BitKind::Led);
    lemma_either(all, part(model, BitKind::Sound), step);
    let all = all + part(model, BitKind::Sound);
    lemma_either(all, part(model, BitKind::Switch), step);
}

/// A device is made at last and only once, and before that it is told of
/// exactly the codes that it has.
pub proof fn devices_are_told_of_their_codes(
    model: BuilderModel,
    steps: Seq<UInputStep>,
    kind: BitKind,
    code: u16,
)
    requires
        model.is_made_in(steps),
    ensures
        model.is_made_by(steps.last()),
        forall|i: int| 0 <= i < steps.len() - 1 ==> !(#[trigger] steps[i] is Create),
        steps.contains(UInputStep::Bit { kind, code }) <==> codes_of(model, kind).contains(code)
            && code < count_of(kind),
{
    assert(model.told() =~= parts(model));
    assert(steps =~= parts(model) + seq![steps.last()]);
    assert forall|i: int| 0 <= i < steps.len() - 1 implies !(#[trigger] steps[i] is Create) by {
        assert(parts(model)[i] == steps[i]);
        assert(parts(model).contains(parts(model)[i]));
        lemma_parts(model, steps[i]);
    }
    let step = UInputStep::Bit { kind, code };
    lemma_parts(model, step);
    lemma_either(parts(model), seq![steps.last()], step);
}

/// What a device is to be.
pub struct Builder {
    pub name: String,
    pub id: InputId,
    pub abs: Vec<AbsoluteInfoSetup>,
    pub bits_keys: KeyMask,
    pub bits: DeviceBits,
}

impl Builder {
    pub open spec fn model(self) -> BuilderModel {
        BuilderModel {
            name: self.name@,
            id: self.id,
            abs: self.abs@,
            events: of_kind(device_bits(self.bits), BitKind::Event),
            keys: mask_keys(self.bits_keys),
            abs_axes: of_kind(device_bits(self.bits), BitKind::Absolute),
            props: of_kind(device_bits(self.bits), BitKind::Property),
            rel: of_kind(device_bits(self.bits), BitKind::Relative),
            misc: of_kind(device_bits(self.bits), BitKind::Misc),
            led: of_kind(device_bits(self.bits), BitKind::Led),
            sound: of_kind(device_bits(self.bits), BitKind::Sound),
            switch: of_kind(device_bits(self.bits), BitKind::Switch),
        }
    }

    pub fn new() -> (builder: Builder)
        ensures
            builder.model() == BuilderModel::nothing(),
    {
        Builder {
            name: String::new(),
            id: InputId { bustype: 0, vendor: 0, product: 0, version: 0 },
            abs: Vec::new(),
            bits_keys: KeyMask::new(),
            bits: DeviceBits::new(),
        }
    }

    pub fn name(&mut self, name: &str) -> (builder: &mut Builder)
        ensures
            builder.model() == (BuilderModel { name: name@, ..old(self).model() }),
            *final(self) == *final(builder),
    {
        self.name = String::from_str(name);
        self
    }

    pub fn id(&mut self, id: &InputId) -> (builder: &mut Builder)
        ensures
            builder.model() == (BuilderModel { id: *id, ..old(self).model() }),
            *final(self) == *final(builder),
    {
        self.id = *id;
        self
    }

    /// Adds an absolute axis.
    pub fn absolute_axis(&mut self, setup: AbsoluteInfoSetup) -> (builder: &mut Builder)
        requires
            setup.axis < ABS_COUNT,
        ensures
            builder.model() == old(self).model().with_axis(setup),
            *final(self) == *final(builder),
    {
        self.bits.insert(BitKind::Absolute, setup.axis);
        self.abs.push(setup);
        self
    }

    /// Adds what a mouse can do.
    pub fn x_config_rel(&mut self) -> (builder: &mut Builder)
        ensures
            builder.model() == old(self).model().with_mouse(),
            *final(self) == *final(builder),
    {
        self.x_config_button();
        self.bits.insert(BitKind::Event, EV_REL);
        self.bits.insert(BitKind::Relative, REL_X);
        self.bits.insert(BitKind::Relative, REL_Y);
        self.bits.insert(BitKind::Relative, REL_WHEEL);
        self.bits.insert(BitKind::Relative, REL_HORIZONTAL_WHEEL);
        self
    }

    /// Adds what a tablet can do.
    pub fn x_config_abs(&mut self) -> (builder: &mut Builder)
        ensures
            builder.model() == old(self).model().with_tablet(),
            *final(self) == *final(builder),
    {
        self.x_config_button();
        let ghost buttons = self.model();
        self.bits.insert(BitKind::Event, EV_ABS);
        assert(self.model() =~= (BuilderModel {
            events: buttons.events.insert(EV_ABS),
            ..buttons
        }));
        self.absolute_axis(
            AbsoluteInfoSetup {
                axis: ABS_X,
                info: AbsoluteInfo {
                    value: 0,
                    minimum: 0,
                    maximum: ABS_MAXIMUM,
                    fuzz: 0,
                    flat: 0,
                    resolution: 1,
                },
            },
        );
        self.absolute_axis(
            AbsoluteInfoSetup {
                axis: ABS_Y,
                info: AbsoluteInfo {
                    value: 0,
                    minimum: 0,
                    maximum: ABS_MAXIMUM,
                    fuzz: 0,
                    flat: 0,
                    resolution: 1,
                },
            },
        );
        let ghost axes = buttons.with_axis(screen_axis(ABS_X)).with_axis(screen_axis(ABS_Y));
        assert(self.model() =~= (BuilderModel { events: axes.events.insert(EV_ABS), ..axes }));
        self.bits.insert(BitKind::Event, EV_REL);
        self.bits.insert(BitKind::Relative, REL_WHEEL);
        self.bits.insert(BitKind::Relative, REL_HORIZONTAL_WHEEL);
        assert(self.model() =~= old(self).model().with_tablet());
        self
    }

    /// Adds the buttons.
    pub fn x_config_button(&mut self) -> (builder: &mut Builder)
        ensures
            builder.model() == old(self).model().with_buttons(),
            *final(self) == *final(builder),
    {
        self.bits.insert(BitKind::Event, EV_KEY);
        insert_keys(&mut self.bits_keys, true);
        self
    }

    /// Adds the keys, and their repetition where asked for.
    pub fn x_config_key(&mut self, repeat: bool) -> (builder: &mut Builder)
        ensures
            builder.model() == old(self).model().with_keys(repeat),
            *final(self) == *final(builder),
    {
        self.bits.insert(BitKind::Event, EV_KEY);
        if repeat {
            self.bits.insert(BitKind::Event, EV_REP);
        }
        insert_keys(&mut self.bits_keys, false);
        self
    }

    /// Adds what a kernel device can do.
    pub fn from_evdev(&mut self, bits: &EvdevBits) -> (builder: &mut Builder)
        requires
            bits.wf(),
        ensures
            builder.model() == old(self).model().with_evdev(*bits),
            *final(self) == *final(builder),
    {
        let ghost own = self.model();
        self.bits.insert_all(BitKind::Property, &bits.properties);
        self.bits.insert_all(BitKind::Event, &bits.events);
        let ghost keys = mask_keys(self.bits_keys);
        let ghost code = |k: Key| k@;
        assert(keys =~= keys.union(bits.keys@.take(0).map_values(code).to_set()));
        let ghost before = *self;
        for i in 0..bits.keys.len()
            invariant
                code == (|k: Key| k@),
                self.bits == before.bits,
                self.model() == (BuilderModel {
                    keys: keys.union(bits.keys@.take(i as int).map_values(code).to_set()),
                    ..before.model()
                }),
        {
            self.bits_keys.insert(bits.keys[i].code());
            proof {
                let codes = bits.keys@.map_values(code);
                assert(bits.keys@.take(i + 1).map_values(code) =~= codes.take(i + 1));
                assert(bits.keys@.take(i as int).map_values(code) =~= codes.take(i as int));
                lemma_one_more(codes, i as int);
                assert(mask_keys(self.bits_keys) =~= keys.union(codes.take(i + 1).to_set()));
            }
        }
        assert(bits.keys@.take(bits.keys@.len() as int) =~= bits.keys@);
        self.bits.insert_all(BitKind::Relative, &bits.relative);
        self.bits.insert_all(BitKind::Misc, &bits.misc);
        self.bits.insert_all(BitKind::Led, &bits.led);
        self.bits.insert_all(BitKind::Sound, &bits.sound);
        self.bits.insert_all(BitKind::Switch, &bits.switch);
        let ghost more = self.model();
        assert(more =~= (BuilderModel {
            props: own.props.union(bits.properties@.to_set()),
            events: own.events.union(bits.events@.to_set()),
            keys: own.keys.union(bits.keys@.map_values(|k: Key| k@).to_set()),
            rel: own.rel.union(bits.relative@.to_set()),
            misc: own.misc.union(bits.misc@.to_set()),
            led: own.led.union(bits.led@.to_set()),
            sound: own.sound.union(bits.sound@.to_set()),
            switch: own.switch.union(bits.switch@.to_set()),
            ..own
        }));
        for i in 0..bits.absolute.len()
            invariant
                bits.wf(),
                self.model() == more.with_axes(bits.absolute@.take(i as int)),
        {
            assert(bits.absolute@.take(i + 1).drop_last() =~= bits.absolute@.take(i as int));
            self.absolute_axis(bits.absolute[i]);
        }
        assert(bits.absolute@.take(bits.absolute@.len() as int) =~= bits.absolute@);
        self
    }

    /// The steps of making the device; an error in one of them ends it.
    pub fn create(&self) -> (steps: Vec<UInputStep>)
        ensures
            self.model().is_made_in(steps@),
    {
        let mut steps: Vec<UInputStep> = Vec::new();
        push_steps(&mut steps, BitKind::Property, &self.bits.codes(BitKind::Property));
        push_steps(&mut steps, BitKind::Event, &self.bits.codes(BitKind::Event));
        push_steps(&mut steps, BitKind::Key, &self.bits_keys.codes());
        push_steps(&mut steps, BitKind::Relative, &self.bits.codes(BitKind::Relative));
        push_steps(&mut steps, BitKind::Absolute, &self.bits.codes(BitKind::Absolute));
        push_steps(&mut steps, BitKind::Misc, &self.bits.codes(BitKind::Misc));
        push_steps(&mut steps, BitKind::Led, &self.bits.codes(BitKind::Led));
        push_steps(&mut steps, BitKind::Sound, &self.bits.codes(BitKind::Sound));
        push_steps(&mut steps, BitKind::Switch, &self.bits.codes(BitKind::Switch));
        assert(steps@ =~= self.model().told());
        steps.push(
            UInputStep::Create {
                id: self.id,
                name: self.name.clone(),
                ff_effects: 0,
                abs: vstd::slice::slice_to_vec(self.abs.as_slice()),
            },
        );
        assert(steps@.drop_last() =~= self.model().told());
        steps
    }
}

fn push_steps(steps: &mut Vec<UInputStep>, kind: BitKind, codes: &Vec<u16>)
    ensures
        final(steps)@ == old(steps)@ + bit_steps(kind, codes@),
{
    let ghost before = steps@;
    assert(before =~= before + bit_steps(kind, codes@.take(0)));
    for i in 0..codes.len()
        invariant
            steps@ == before + bit_steps(kind, codes@.take(i as int)),
    {
        steps.push(UInputStep::Bit { kind, code: codes[i] });
        assert(bit_steps(kind, codes@.take(i + 1)) =~= bit_steps(kind, codes@.take(i as int)).push(
            UInputStep::Bit { kind, code: codes@[i as int] },
        ));
        assert(steps@ =~= before + bit_steps(kind, codes@.take(i + 1)));
    }
    assert(codes@.take(codes@.len() as int) =~= codes@);
}

/// Adds the codes of all buttons, or those of all other keys.
fn insert_keys(mask: &mut KeyMask, buttons: bool)
    ensures
        mask_keys(*final(mask)) == mask_keys(*old(mask)).union(key_codes(buttons)),
{
    let ghost before = mask_keys(*mask);
    let mut code: u16 = 0;
    assert(before =~= before.union(key_codes(buttons).filter(|c: u16| c < 0)));
    while code < KEY_COUNT
        invariant
            code <= KEY_COUNT,
            mask_keys(*mask) == before.union(key_codes(buttons).filter(|c: u16| c < code)),
        decreases KEY_COUNT - code,
    {
        if let Some(key) = Key::from_code(code) {
            let wanted = if buttons {
                key.is_button()
            } else {
                key.is_key()
            };
            if wanted {
                mask.insert(code);
            }
        }
        code = code + 1;
        assert(mask_keys(*mask) =~= before.union(key_codes(buttons).filter(|c: u16| c < code)));
    }
    assert(mask_keys(*mask) =~= before.union(key_codes(buttons)));
}

/// Whether two devices differ in nothing but in their keys, and in the kinds of
/// events and the relative axes that they have.
pub open spec fn same_but_input(a: BuilderModel, b: BuilderModel) -> bool {
    &&& a.name == b.name
    &&& a.id == b.id
    &&& a.props == b.props
    &&& a.misc == b.misc
    &&& a.led == b.led
    &&& a.sound == b.sound
    &&& a.switch == b.switch
}

/// Whether a code is one of a button.
pub open spec fn is_button(code: u16) -> bool {
    0x100 <= code < 0x160 || 0x2c0 <= code < 0x300
}

/// A mouse gets all buttons, its two axes and both wheels, and the kinds of events
/// for these; whatever the device had, it keeps.
pub proof fn mice_have_buttons_axes_and_wheels(before: Builder, after: Builder)
    requires
        exists|this: &mut Builder, builder: &mut Builder| #[trigger]
            call_ensures(Builder::x_config_rel, (this,), builder) && *this == before && *builder == after,
    ensures
        same_but_input(before.model(), after.model()),
        forall|code: u16| #[trigger]
            after.model().keys.contains(code) <==> before.model().keys.contains(code) || is_button(
                code,
            ),
        forall|code: u16| #[trigger]
            after.model().events.contains(code) <==> before.model().events.contains(code) || code
                == 1 || code == 2,
        forall|code: u16| #[trigger]
            after.model().rel.contains(code) <==> before.model().rel.contains(code) || code == 0
                || code == 1 || code == 6 || code == 8,
        after.model().abs == before.model().abs,
        after.model().abs_axes == before.model().abs_axes,
{
}

/// A tablet gets all buttons, both wheels and two axes over the range of the screen,
/// and the kinds of events for these; whatever the device had, it keeps.
pub proof fn tablets_have_buttons_axes_and_wheels(before: Builder, after: Builder)
    requires
        exists|this: &mut Builder, builder: &mut Builder| #[trigger]
            call_ensures(Builder::x_config_abs, (this,), builder) && *this == before && *builder == after,
    ensures
        same_but_input(before.model(), after.model()),
        forall|code: u16| #[trigger]
            after.model().keys.contains(code) <==> before.model().keys.contains(code) || is_button(
                code,
            ),
        forall|code: u16| #[trigger]
            after.model().events.contains(code) <==> before.model().events.contains(code) || code
                == 1 || code == 2 || code == 3,
        forall|code: u16| #[trigger]
            after.model().rel.contains(code) <==> before.model().rel.contains(code) || code == 6
                || code == 8,
        forall|code: u16| #[trigger]
            after.model().abs_axes.contains(code) <==> before.model().abs_axes.contains(code)
                || code == 0 || code == 1,
        after.model().abs.len() == before.model().abs.len() + 2,
        after.model().abs.take(before.model().abs.len() as int) == before.model().abs,
        forall|axis: int|
            0 <= axis < 2 ==> #[trigger] after.model().abs[before.model().abs.len() + axis] == (
            AbsoluteInfoSetup {
                axis: axis as u16,
                info: AbsoluteInfo {
                    value: 0,
                    minimum: 0,
                    maximum: 0x8000,
                    fuzz: 0,
                    flat: 0,
                    resolution: 1,
                },
            }),
{
    assert(after.model().abs.take(before.model().abs.len() as int) =~= before.model().abs);
}

/// Buttons, or all other keys, are added to those that the device has, with the
/// kind of event for them; keys repeat only where asked for.
pub proof fn keys_and_buttons_are_added(
    before: Builder,
    repeat: bool,
    buttons: Builder,
    keys: Builder,
)
    requires
        exists|this: &mut Builder, builder: &mut Builder| #[trigger]
            call_ensures(Builder::x_config_button, (this,), builder) && *this == before && *builder
                == buttons,
        exists|this: &mut Builder, builder: &mut Builder| #[trigger]
            call_ensures(Builder::x_config_key, (this, repeat), builder) && *this == before
                && *builder == keys,
    ensures
        same_but_input(before.model(), buttons.model()),
        same_but_input(before.model(), keys.model()),
        forall|code: u16| #[trigger]
            buttons.model().keys.contains(code) <==> before.model().keys.contains(code)
                || is_button(code),
        forall|code: u16| #[trigger]
            keys.model().keys.contains(code) <==> before.model().keys.contains(code) || code < 0x300
                && !is_button(code),
        forall|code: u16| #[trigger]
            buttons.model().events.contains(code) <==> before.model().events.contains(code) || code
                == 1,
        forall|code: u16| #[trigger]
            keys.model().events.contains(code) <==> before.model().events.contains(code) || code
                == 1 || code == 0x14 && repeat,
        buttons.model().rel == before.model().rel && keys.model().rel == before.model().rel,
        buttons.model().abs == before.model().abs && keys.model().abs == before.model().abs,
        buttons.model().abs_axes == before.model().abs_axes && keys.model().abs_axes
            == before.model().abs_axes,
{
}

proof fn lemma_with_axes(model: BuilderModel, setups: Seq<AbsoluteInfoSetup>)
    ensures
        ({
            let all = model.with_axes(setups);
            &&& all == (BuilderModel { abs: model.abs + setups, abs_axes: all.abs_axes, ..model })
            &&& forall|code: u16| #[trigger]
                all.abs_axes.contains(code) <==> model.abs_axes.contains(code) || exists|i: int|
                    0 <= i < setups.len() && (#[trigger] setups[i]).axis == code
        }),
    decreases setups.len(),
{
    let all = model.with_axes(setups);
    if setups.len() == 0 {
        assert(model.abs + setups =~= model.abs);
    } else {
        let fewer = setups.drop_last();
        lemma_with_axes(model, fewer);
        assert(model.abs + setups =~= (model.abs + fewer).push(setups.last()));
        assert forall|code: u16| #[trigger] all.abs_axes.contains(code)
            <==> model.abs_axes.contains(code) || exists|i: int|
            0 <= i < setups.len() && (#[trigger] setups[i]).axis == code by {
            if all.abs_axes.contains(code) && !model.abs_axes.contains(code) {
                if code == setups.last().axis {
                    assert(setups[setups.len() - 1].axis == code);
                } else {
                    let i = choose|i: int|
                        0 <= i < fewer.len() && (#[trigger] fewer[i]).axis == code;
                    assert(setups[i].axis == code);
                }
            }
            if exists|i: int| 0 <= i < setups.len() && (#[trigger] setups[i]).axis == code {
                let i = choose|i: int|
                    0 <= i < setups.len() && (#[trigger] setups[i]).axis == code;
                if i < fewer.len() {
                    assert(fewer[i].axis == code);
                }
            }
        }
    }
}

/// A device gets each code that a kernel device has, of every kind, and each of its
/// absolute axes with what is known of it; whatever the device had, it keeps.
pub proof fn kernel_devices_are_taken_over(before: Builder, bits: EvdevBits, after: Builder)
    requires
        bits.wf(),
        exists|this: &mut Builder, builder: &mut Builder| #[trigger]
            call_ensures(Builder::from_evdev, (this, &bits), builder) && *this == before && *builder == after,
    ensures
        after.model().name == before.model().name,
        after.model().id == before.model().id,
        after.model().abs == before.model().abs + bits.absolute@,
        forall|code: u16| #[trigger]
            after.model().props.contains(code) <==> before.model().props.contains(code)
                || bits.properties@.contains(code),
        forall|code: u16| #[trigger]
            after.model().events.contains(code) <==> before.model().events.contains(code)
                || bits.events@.contains(code),
        forall|code: u16| #[trigger]
            after.model().keys.contains(code) <==> before.model().keys.contains(code) || exists|
                i: int,
            |
                0 <= i < bits.keys@.len() && (#[trigger] bits.keys@[i])@ == code,
        forall|code: u16| #[trigger]
            after.model().rel.contains(code) <==> before.model().rel.contains(code)
                || bits.relative@.contains(code),
        forall|code: u16| #[trigger]
            after.model().misc.contains(code) <==> before.model().misc.contains(code)
                || bits.misc@.contains(code),
        forall|code: u16| #[trigger]
            after.model().led.contains(code) <==> before.model().led.contains(code)
                || bits.led@.contains(code),
        forall|code: u16| #[trigger]
            after.model().sound.contains(code) <==> before.model().sound.contains(code)
                || bits.sound@.contains(code),
        forall|code: u16| #[trigger]
            after.model().switch.contains(code) <==> before.model().switch.contains(code)
                || bits.switch@.contains(code),
        forall|code: u16| #[trigger]
            after.model().abs_axes.contains(code) <==> before.model().abs_axes.contains(code)
                || exists|i: int|
                0 <= i < bits.absolute@.len() && (#[trigger] bits.absolute@[i]).axis == code,
{
    let own = before.model();
    let more = BuilderModel {
        props: own.props.union(bits.properties@.to_set()),
        events: own.events.union(bits.events@.to_set()),
        keys: own.keys.union(bits.keys@.map_values(|k: Key| k@).to_set()),
        rel: own.rel.union(bits.relative@.to_set()),
        misc: own.misc.union(bits.misc@.to_set()),
        led: own.led.union(bits.led@.to_set()),
        sound: own.sound.union(bits.sound@.to_set()),
        switch: own.switch.union(bits.switch@.to_set()),
        ..own
    };
    assert(after.model() == more.with_axes(bits.absolute@));
    lemma_with_axes(more, bits.absolute@);
    let codes = bits.keys@.map_values(|k: Key| k@);
    assert forall|code: u16| #[trigger] after.model().keys.contains(code)
        <==> before.model().keys.contains(code) || exists|i: int|
        0 <= i < bits.keys@.len() && (#[trigger] bits.keys@[i])@ == code by {
        if codes.contains(code) {
            let i = codes.index_of(code);
            assert(bits.keys@[i]@ == code);
        }
        if exists|i: int| 0 <= i < bits.keys@.len() && (#[trigger] bits.keys@[i])@ == code {
            let i = choose|i: int|
                0 <= i < bits.keys@.len() && (#[trigger] bits.keys@[i])@ == code;
            assert(codes[i] == code);
        }
    }
}

/// An absolute axis is added behind those that the device has, with all that is
/// known of it, and a name or an identity takes the place of the one before.
pub proof fn devices_are_named_and_extended(
    before: Builder,
    setup: AbsoluteInfoSetup,
    extended: Builder,
    name: &str,
    named: Builder,
    id: InputId,
    identified: Builder,
)
    requires
        setup.axis < 0x40,
        exists|this: &mut Builder, builder: &mut Builder| #[trigger]
            call_ensures(Builder::absolute_axis, (this, setup), builder) && *this == before
                && *builder == extended,
        exists|this: &mut Builder, builder: &mut Builder| #[trigger]
            call_ensures(Builder::name, (this, name), builder) && *this == before && *builder
                == named,
        exists|this: &mut Builder, builder: &mut Builder| #[trigger]
            call_ensures(Builder::id, (this, &id), builder) && *this == before && *builder
                == identified,
    ensures
        extended.model().abs == before.model().abs + seq![setup],
        forall|code: u16| #[trigger]
            extended.model().abs_axes.contains(code) <==> before.model().abs_axes.contains(code)
                || code == setup.axis,
        same_but_input(before.model(), extended.model()),
        extended.model().keys == before.model().keys && extended.model().events
            == before.model().events && extended.model().rel == before.model().rel,
        named.model() == (BuilderModel { name: name@, ..before.model() }),
        identified.model() == (BuilderModel { id, ..before.model() }),
{
    assert(before.model().abs.push(setup) =~= before.model().abs + seq![setup]);
}

/// A device is told of each code that was added to it, whatever its kind, and of no
/// other code below the number of codes of the kind; then it is made, once, with its
/// identity, its name, its axes and no force feedback.
pub proof fn devices_are_made_as_described(
    builder: Builder,
    steps: Vec<UInputStep>,
    kind: BitKind,
    code: u16,
)
    requires
        call_ensures(Builder::create, (&builder,), steps),
    ensures
        steps@.len() > 0,
        steps@.last() matches UInputStep::Create { id, name, ff_effects, abs } && id == builder.id
            && name@ == builder.name@ && ff_effects == 0 && abs@ == builder.abs@,
        forall|i: int| 0 <= i < steps@.len() - 1 ==> #[trigger] steps@[i] is Bit,
        steps@.contains(UInputStep::Bit { kind, code }) <==> match kind {
            BitKind::Key => code < 0x300 && mask_keys(builder.bits_keys).contains(code),
            _ => device_bits(builder.bits).contains((kind, code)) && match kind {
                BitKind::Property => code < 0x20,
                BitKind::Event => code < 0x20,
                BitKind::Relative => code < 0x10,
                BitKind::Absolute => code < 0x40,
                BitKind::Misc => code < 0x08,
                BitKind::Led => code < 0x10,
                BitKind::Sound => code < 0x08,
                _ => code < 0x11,
            },
        },
{
    devices_are_told_of_their_codes(builder.model(), steps@, kind, code);
    assert forall|i: int| 0 <= i < steps@.len() - 1 implies #[trigger] steps@[i] is Bit by {
        assert(!(steps@[i] is Create));
    }
}

} // verus!
