//! Hotkeys, remapped keys, and the keys that the guest holds down.

use crate::input::{
    ascending, ascending_lists_the_set, event_of, mask_keys, report_event, EventKind, EventRef,
    InputEvent, Key, KeyMask, KEY_COUNT, PRESSED, RELEASED,
};
use crate::x::XEvent;
use std::collections::HashMap;
use vstd::prelude::*;
use vstd::std_specs::hash::group_hash_axioms;

verus! {

/// What the window asks for.
#[derive(Debug, Clone, Copy, PartialEq, Eq, Structural)]
pub enum UserEvent {
    Quit,
    ShowGuest,
    ShowHost,
    UnstickGuest,
    UnstickHost,
}

/// A key combination and the events that it causes.
#[derive(Debug)]
pub struct Hotkey<U> {
    triggers: Vec<Key>,
    modifiers: Vec<Key>,
    events: Vec<U>,
}

impl<U> Hotkey<U> {
    pub closed spec fn trigger_keys(self) -> Seq<Key> {
        self.triggers@
    }

    pub closed spec fn modifier_keys(self) -> Seq<Key> {
        self.modifiers@
    }

    pub closed spec fn caused(self) -> Seq<U> {
        self.events@
    }

    /// Whether all keys of the combination are down.
    pub open spec fn is_down(self, down: Set<u16>) -> bool {
        &&& forall|i: int|
            0 <= i < self.trigger_keys().len() ==> down.contains(#[trigger] self.trigger_keys()[i]@)
        &&& forall|i: int|
            0 <= i < self.modifier_keys().len() ==> down.contains(
                #[trigger] self.modifier_keys()[i]@,
            )
    }

    pub fn new(triggers: Vec<Key>, modifiers: Vec<Key>, events: Vec<U>) -> (hotkey: Hotkey<U>)
        ensures
            hotkey.trigger_keys() == triggers@,
            hotkey.modifier_keys() == modifiers@,
            hotkey.caused() == events@,
    {
        Hotkey { triggers, modifiers, events }
    }

    /// The keys of the combination, triggers first.
    pub fn keys(&self) -> (keys: Vec<Key>)
        ensures
            keys@ == self.trigger_keys() + self.modifier_keys(),
    {
        let mut keys: Vec<Key> = Vec::new();
        for i in 0..self.triggers.len()
            invariant
                keys@ == self.triggers@.take(i as int),
        {
            keys.push(self.triggers[i]);
            assert(self.triggers@.take(i + 1) =~= self.triggers@.take(i as int).push(
                self.triggers@[i as int],
            ));
        }
        assert(self.triggers@.take(self.triggers@.len() as int) =~= self.triggers@);
        for i in 0..self.modifiers.len()
            invariant
                keys@ == self.triggers@ + self.modifiers@.take(i as int),
        {
            keys.push(self.modifiers[i]);
            assert(self.modifiers@.take(i + 1) =~= self.modifiers@.take(i as int).push(
                self.modifiers@[i as int],
            ));
        }
        assert(self.modifiers@.take(self.modifiers@.len() as int) =~= self.modifiers@);
        keys
    }

    fn all_down(&self, down: &KeyMask) -> (all: bool)
        ensures
            all == self.is_down(mask_keys(*down)),
    {
        let keys = self.keys();
        let ghost n = self.trigger_keys().len() as int;
        for i in 0..keys.len()
            invariant
                keys@ == self.trigger_keys() + self.modifier_keys(),
                n == self.trigger_keys().len(),
                forall|j: int| 0 <= j < i ==> mask_keys(*down).contains(#[trigger] keys@[j]@),
        {
            if !down.get(keys[i].code()) {
                proof {
                    if i < n {
                        assert(self.trigger_keys()[i as int] == keys@[i as int]);
                    } else {
                        assert(self.modifier_keys()[i - n] == keys@[i as int]);
                    }
                }
                return false;
            }
        }
        proof {
            assert forall|j: int| 0 <= j < self.trigger_keys().len() implies mask_keys(
                *down,
            ).contains(#[trigger] self.trigger_keys()[j]@) by {
                assert(keys@[j] == self.trigger_keys()[j]);
            }
            assert forall|j: int| 0 <= j < self.modifier_keys().len() implies mask_keys(
                *down,
            ).contains(#[trigger] self.modifier_keys()[j]@) by {
                assert(keys@[n + j] == self.modifier_keys()[j]);
            }
        }
        true
    }
}

/// How often a key occurs in a list.
pub open spec fn occurrences(keys: Seq<Key>, code: u16) -> nat
    decreases keys.len(),
{
    if keys.len() == 0 {
        0
    } else {
        occurrences(keys.drop_last(), code) + if keys.last()@ == code {
            1nat
        } else {
            0nat
        }
    }
}

/// A sequence over and over again.
pub open spec fn repeated<T>(s: Seq<T>, times: nat) -> Seq<T>
    decreases times,
{
    if times == 0 {
        Seq::empty()
    } else {
        repeated(s, (times - 1) as nat) + s
    }
}

/// The events that a key causes: those of each hotkey that is down, in the
/// order in which the hotkeys were added, once for each time that the hotkey
/// names the key as a trigger.
pub open spec fn fired<U>(hotkeys: Seq<Hotkey<U>>, code: u16, down: Set<u16>) -> Seq<U>
    decreases hotkeys.len(),
{
    if hotkeys.len() == 0 {
        Seq::empty()
    } else {
        let h = hotkeys.last();
        fired(hotkeys.drop_last(), code, down) + if h.is_down(down) {
            repeated(h.caused(), occurrences(h.trigger_keys(), code))
        } else {
            Seq::empty()
        }
    }
}

/// The positions of the hotkeys that a key triggers.
spec fn positions<U>(hotkeys: Seq<Hotkey<U>>, code: u16) -> Seq<usize>
    decreases hotkeys.len(),
{
    if hotkeys.len() == 0 {
        Seq::empty()
    } else {
        positions(hotkeys.drop_last(), code) + Seq::new(
            occurrences(hotkeys.last().trigger_keys(), code),
            |i: int| (hotkeys.len() - 1) as usize,
        )
    }
}

/// The events of the hotkeys at some positions that are down.
spec fn gathered<U>(hotkeys: Seq<Hotkey<U>>, at: Seq<usize>, down: Set<u16>) -> Seq<U>
    decreases at.len(),
{
    if at.len() == 0 {
        Seq::empty()
    } else {
        let h = hotkeys[at.last() as int];
        gathered(hotkeys, at.drop_last(), down) + if h.is_down(down) {
            h.caused()
        } else {
            Seq::empty()
        }
    }
}

proof fn lemma_positions_in_range<U>(hotkeys: Seq<Hotkey<U>>, code: u16)
    requires
        hotkeys.len() <= usize::MAX,
    ensures
        forall|i: int|
            0 <= i < positions(hotkeys, code).len() ==> #[trigger] positions(hotkeys, code)[i]
                < hotkeys.len(),
    decreases hotkeys.len(),
{
    if hotkeys.len() > 0 {
        let shorter = hotkeys.drop_last();
        lemma_positions_in_range(shorter, code);
        assert forall|i: int| 0 <= i < positions(hotkeys, code).len() implies #[trigger] positions(
            hotkeys,
            code,
        )[i] < hotkeys.len() by {
            if i < positions(shorter, code).len() {
                assert(positions(hotkeys, code)[i] == positions(shorter, code)[i]);
            }
        }
    }
}

proof fn lemma_gathered_prefix<U>(hotkeys: Seq<Hotkey<U>>, at: Seq<usize>, down: Set<u16>)
    requires
        hotkeys.len() > 0,
        forall|i: int| 0 <= i < at.len() ==> #[trigger] at[i] < hotkeys.len() - 1,
    ensures
        gathered(hotkeys, at, down) == gathered(hotkeys.drop_last(), at, down),
    decreases at.len(),
{
    if at.len() > 0 {
        lemma_gathered_prefix(hotkeys, at.drop_last(), down);
        assert(hotkeys[at.last() as int] == hotkeys.drop_last()[at.last() as int]);
    }
}

proof fn lemma_gathered_repeat<U>(
    hotkeys: Seq<Hotkey<U>>,
    at: Seq<usize>,
    p: usize,
    times: nat,
    down: Set<u16>,
)
    requires
        p < hotkeys.len(),
    ensures
        gathered(hotkeys, at + Seq::new(times, |i: int| p), down) == gathered(hotkeys, at, down)
            + if hotkeys[p as int].is_down(down) {
            repeated(hotkeys[p as int].caused(), times)
        } else {
            Seq::empty()
        },
    decreases times,
{
    let h = hotkeys[p as int];
    let all = at + Seq::new(times, |i: int| p);
    if times == 0 {
        assert(all =~= at);
        assert(gathered(hotkeys, at, down) + Seq::<U>::empty() =~= gathered(hotkeys, at, down));
    } else {
        let fewer = (times - 1) as nat;
        lemma_gathered_repeat(hotkeys, at, p, fewer, down);
        assert(all.drop_last() =~= at + Seq::new(fewer, |i: int| p));
        assert(all.last() == p);
        if h.is_down(down) {
            assert(gathered(hotkeys, at, down) + repeated(h.caused(), fewer) + h.caused() =~= gathered(
                hotkeys,
                at,
                down,
            ) + (repeated(h.caused(), fewer) + h.caused()));
        } else {
            assert(gathered(hotkeys, at, down) + Seq::<U>::empty() + Seq::<U>::empty()
                =~= gathered(hotkeys, at, down) + Seq::<U>::empty());
        }
    }
}

proof fn lemma_fired_is_gathered<U>(hotkeys: Seq<Hotkey<U>>, code: u16, down: Set<u16>)
    requires
        hotkeys.len() <= usize::MAX,
    ensures
        fired(hotkeys, code, down) == gathered(hotkeys, positions(hotkeys, code), down),
    decreases hotkeys.len(),
{
    if hotkeys.len() > 0 {
        let shorter = hotkeys.drop_last();
        let p = (hotkeys.len() - 1) as usize;
        let n = occurrences(hotkeys.last().trigger_keys(), code);
        lemma_fired_is_gathered(shorter, code, down);
        lemma_positions_in_range(shorter, code);
        lemma_gathered_prefix(hotkeys, positions(shorter, code), down);
        lemma_gathered_repeat(hotkeys, positions(shorter, code), p, n, down);
        assert(positions(hotkeys, code) =~= positions(shorter, code) + Seq::new(n, |i: int| p));
    }
}

/// Hotkeys, and for each key where those are that it triggers.
#[derive(Debug)]
struct Triggers<U> {
    hotkeys: Vec<Hotkey<U>>,
    by_key: HashMap<u16, Vec<usize>>,
}

impl<U> Triggers<U> {
    spec fn listed(self, code: u16) -> Seq<usize> {
        if self.by_key@.contains_key(code) {
            self.by_key@[code]@
        } else {
            Seq::empty()
        }
    }

    spec fn wf(self) -> bool {
        forall|code: u16| #[trigger] self.listed(code) == positions(self.hotkeys@, code)
    }

    fn new() -> (triggers: Triggers<U>)
        ensures
            triggers.wf(),
            triggers.hotkeys@ == Seq::<Hotkey<U>>::empty(),
    {
        broadcast use group_hash_axioms;

        let triggers = Triggers { hotkeys: Vec::new(), by_key: HashMap::new() };
        assert forall|code: u16| #[trigger]
            triggers.listed(code) == positions(triggers.hotkeys@, code) by {
            assert(triggers.listed(code) =~= Seq::<usize>::empty());
        }
        triggers
    }

    fn add(&mut self, hotkey: Hotkey<U>)
        requires
            old(self).wf(),
            old(self).hotkeys@.len() < usize::MAX,
        ensures
            final(self).wf(),
            final(self).hotkeys@ == old(self).hotkeys@.push(hotkey),
    {
        broadcast use group_hash_axioms;

        let at = self.hotkeys.len();
        let ghost before = self.hotkeys@;
        let ghost keys = hotkey.trigger_keys();
        proof {
            assert forall|code: u16| #[trigger]
                self.listed(code) == positions(before, code) + Seq::new(
                    occurrences(keys.take(0), code),
                    |i: int| at,
                ) by {
                assert(keys.take(0) =~= Seq::<Key>::empty());
                assert(positions(before, code) =~= positions(before, code) + Seq::new(
                    occurrences(keys.take(0), code),
                    |i: int| at,
                ));
            }
        }
        for j in 0..hotkey.triggers.len()
            invariant
                self.hotkeys@ == before,
                at == before.len(),
                keys == hotkey.triggers@,
                forall|code: u16| #[trigger]
                    self.listed(code) == positions(before, code) + Seq::new(
                        occurrences(keys.take(j as int), code),
                        |i: int| at,
                    ),
        {
            broadcast use group_hash_axioms;

            let ghost prior = *self;
            let code = hotkey.triggers[j].code();
            let mut list: Vec<usize> = match self.by_key.remove(&code) {
                Some(list) => list,
                None => Vec::new(),
            };
            assert(list@ =~= prior.listed(code));
            list.push(at);
            self.by_key.insert(code, list);
            proof {
                assert forall|c: u16| #[trigger]
                    self.listed(c) == positions(before, c) + Seq::new(
                        occurrences(keys.take(j + 1), c),
                        |i: int| at,
                    ) by {
                    assert(keys.take(j + 1).drop_last() =~= keys.take(j as int));
                    assert(prior.listed(c) == positions(before, c) + Seq::new(
                        occurrences(keys.take(j as int), c),
                        |i: int| at,
                    ));
                    if c == code {
                        assert(self.listed(c) =~= prior.listed(c).push(at));
                        assert(prior.listed(c).push(at) =~= positions(before, c) + Seq::new(
                            occurrences(keys.take(j + 1), c),
                            |i: int| at,
                        ));
                    } else {
                        assert(self.listed(c) == prior.listed(c));
                    }
                }
            }
        }
        let ghost listed = *self;
        self.hotkeys.push(hotkey);
        proof {
            assert(keys.take(keys.len() as int) =~= keys);
            assert forall|code: u16| #[trigger]
                self.listed(code) == positions(self.hotkeys@, code) by {
                assert(self.listed(code) == listed.listed(code));
                assert(self.hotkeys@.drop_last() =~= before);
                assert(self.hotkeys@.last() == hotkey);
                assert(positions(self.hotkeys@, code) =~= positions(before, code) + Seq::new(
                    occurrences(keys, code),
                    |i: int| at,
                ));
            }
        }
    }

    fn fire(&self, code: u16, down: &KeyMask) -> (events: Vec<&U>)
        requires
            self.wf(),
        ensures
            events@.map_values(|u: &U| *u) == fired(self.hotkeys@, code, mask_keys(*down)),
    {
        broadcast use group_hash_axioms;

        let mut events: Vec<&U> = Vec::new();
        let ghost all = self.hotkeys@;
        let ghost set = mask_keys(*down);
        let ghost view = |u: &U| *u;
        proof {
            assert(self.hotkeys.len() == all.len());
            lemma_fired_is_gathered(all, code, set);
            lemma_positions_in_range(all, code);
            assert(self.listed(code) == positions(all, code));
        }
        match self.by_key.get(&code) {
            Some(list) => {
                assert(list@ == positions(all, code));
                for i in 0..list.len()
                    invariant
                        all == self.hotkeys@,
                        set == mask_keys(*down),
                        list@ == positions(all, code),
                        view == (|u: &U| *u),
                        forall|k: int| 0 <= k < list@.len() ==> #[trigger] list@[k] < all.len(),
                        events@.map_values(view) == gathered(all, list@.take(i as int), set),
                {
                    let hotkey = &self.hotkeys[list[i]];
                    let ghost before = events@;
                    proof {
                        assert(list@.take(i + 1).drop_last() =~= list@.take(i as int));
                        assert(list@.take(i + 1).last() == list@[i as int]);
                    }
                    if hotkey.all_down(down) {
                        for j in 0..hotkey.events.len()
                            invariant
                                view == (|u: &U| *u),
                                events@.map_values(view) == before.map_values(view)
                                    + hotkey.events@.take(j as int),
                        {
                            let ghost prior = events@;
                            events.push(&hotkey.events[j]);
                            proof {
                                assert(events@.map_values(view) =~= prior.map_values(view).push(
                                    hotkey.events@[j as int],
                                ));
                                assert(hotkey.events@.take(j + 1) =~= hotkey.events@.take(
                                    j as int,
                                ).push(hotkey.events@[j as int]));
                            }
                        }
                        assert(hotkey.events@.take(hotkey.events@.len() as int)
                            =~= hotkey.events@);
                    } else {
                        assert(before.map_values(view) + Seq::<U>::empty() =~= before.map_values(
                            view,
                        ));
                    }
                }
                assert(list@.take(list@.len() as int) =~= list@);
            },
            None => {
                assert(events@.map_values(view) =~= Seq::<U>::empty());
            },
        }
        events
    }
}

/// What an event of the window leads to.
#[derive(Debug, Clone, Copy, PartialEq, Eq, Structural)]
pub enum ProcessedXEvent {
    UserEvent(UserEvent),
    InputEvent(InputEvent),
}

impl From<UserEvent> for ProcessedXEvent {
    fn from(e: UserEvent) -> (event: Self) {
        ProcessedXEvent::UserEvent(e)
    }
}

impl vstd::std_specs::convert::FromSpecImpl<UserEvent> for ProcessedXEvent {
    open spec fn obeys_from_spec() -> bool {
        true
    }

    open spec fn from_spec(e: UserEvent) -> Self {
        ProcessedXEvent::UserEvent(e)
    }
}

impl From<InputEvent> for ProcessedXEvent {
    fn from(e: InputEvent) -> (event: Self) {
        ProcessedXEvent::InputEvent(e)
    }
}

impl vstd::std_specs::convert::FromSpecImpl<InputEvent> for ProcessedXEvent {
    open spec fn obeys_from_spec() -> bool {
        true
    }

    open spec fn from_spec(e: InputEvent) -> Self {
        ProcessedXEvent::InputEvent(e)
    }
}

/// Input events, kept as a `smallvec::SmallVec`: mostly only a few keys are
/// down.
#[verifier::external_body]
struct InputEventBuf {
    events: smallvec::SmallVec<[InputEvent; 4]>,
}

/// The events in a buffer.
pub uninterp spec fn buffered_input(buf: InputEventBuf) -> Seq<InputEvent>;

impl InputEventBuf {
    /// `smallvec::SmallVec::new`: an empty buffer.
    #[verifier::external_body]
    fn new() -> (buf: InputEventBuf)
        ensures
            buffered_input(buf) == Seq::<InputEvent>::empty(),
    {
        InputEventBuf { events: smallvec::SmallVec::new() }
    }

    /// `smallvec::SmallVec::push`: adds an event at the end.
    #[verifier::external_body]
    fn push(&mut self, event: InputEvent)
        ensures
            buffered_input(*final(self)) == buffered_input(*old(self)).push(event),
    {
        self.events.push(event)
    }

    /// `smallvec::SmallVec::into_vec`: the same events in the same order.
    #[verifier::external_body]
    fn into_vec(self) -> (events: Vec<InputEvent>)
        ensures
            events@ == buffered_input(self),
    {
        self.events.into_vec()
    }
}

/// What an event of the window leads to, kept as a `smallvec::SmallVec`.
#[verifier::external_body]
struct XEventBuf {
    events: smallvec::SmallVec<[ProcessedXEvent; 4]>,
}

/// The events in a buffer.
pub uninterp spec fn buffered_x(buf: XEventBuf) -> Seq<ProcessedXEvent>;

impl XEventBuf {
    /// `smallvec::SmallVec::new`: an empty buffer.
    #[verifier::external_body]
    fn new() -> (buf: XEventBuf)
        ensures
            buffered_x(buf) == Seq::<ProcessedXEvent>::empty(),
    {
        XEventBuf { events: smallvec::SmallVec::new() }
    }

    /// `smallvec::SmallVec::push`: adds an event at the end.
    #[verifier::external_body]
    fn push(&mut self, event: ProcessedXEvent)
        ensures
            buffered_x(*final(self)) == buffered_x(*old(self)).push(event),
    {
        self.events.push(event)
    }

    /// `smallvec::SmallVec::into_vec`: the same events in the same order.
    #[verifier::external_body]
    fn into_vec(self) -> (events: Vec<ProcessedXEvent>)
        ensures
            events@ == buffered_x(self),
    {
        self.events.into_vec()
    }
}

/// The release of a key.
pub open spec fn release_event(code: u16) -> InputEvent {
    event_of(EventKind::Key, code, RELEASED)
}

/// The events that release some keys and end the group.
pub open spec fn unstick_events(codes: Seq<u16>) -> Seq<InputEvent> {
    codes.map_values(|code: u16| release_event(code)).push(report_event())
}

/// What an event of the window leads to, where `codes` are the keys down.
pub open spec fn processed(e: XEvent, codes: Seq<u16>) -> Seq<ProcessedXEvent> {
    match e {
        XEvent::Close => seq![ProcessedXEvent::UserEvent(UserEvent::Quit)],
        XEvent::Visible(true) => seq![ProcessedXEvent::UserEvent(UserEvent::ShowGuest)],
        XEvent::Visible(false) => seq![ProcessedXEvent::UserEvent(UserEvent::ShowHost)],
        XEvent::Focus(true) => Seq::empty(),
        XEvent::Focus(false) => unstick_events(codes).map_values(
            |e: InputEvent| ProcessedXEvent::InputEvent(e),
        ),
        XEvent::Input(e) => seq![ProcessedXEvent::InputEvent(e)],
    }
}

/// Whether an event is about a key.
pub open spec fn is_key_event(e: InputEvent) -> bool {
    e.kind is Key && e.code < KEY_COUNT
}

/// The keys that are down after an event.
pub open spec fn held_after(held: Set<u16>, e: InputEvent) -> Set<u16> {
    if is_key_event(e) && e.value == PRESSED {
        held.insert(e.code)
    } else if is_key_event(e) && e.value == RELEASED {
        held.remove(e.code)
    } else {
        held
    }
}

/// Hotkeys and remapped keys, and which keys the guest holds down.
pub struct Events<U> {
    press: Triggers<U>,
    release: Triggers<U>,
    remap: HashMap<u16, Key>,
    keys: KeyMask,
}

impl<U> Events<U> {
    /// The indices of the hotkeys agree with the hotkeys, and only keys are
    /// down.
    pub closed spec fn wf(self) -> bool {
        &&& self.press.wf()
        &&& self.release.wf()
        &&& forall|code: u16| self.held().contains(code) ==> code < KEY_COUNT
    }

    /// The hotkeys that act on a press, or those that act on a release, in the
    /// order in which they were added.
    pub closed spec fn hotkeys(self, on_press: bool) -> Seq<Hotkey<U>> {
        if on_press {
            self.press.hotkeys@
        } else {
            self.release.hotkeys@
        }
    }

    /// What keys are replaced by.
    pub closed spec fn remaps(self) -> Map<u16, Key> {
        self.remap@
    }

    /// The keys that are down.
    pub closed spec fn held(self) -> Set<u16> {
        mask_keys(self.keys)
    }

    /// All but the keys that are down is the same.
    pub open spec fn same_setup(self, other: Self) -> bool {
        &&& self.hotkeys(true) == other.hotkeys(true)
        &&& self.hotkeys(false) == other.hotkeys(false)
        &&& self.remaps() == other.remaps()
    }

    /// What the hotkeys cause on an event. A press counts before, a release
    /// after the hotkeys are looked up.
    pub open spec fn caused(self, e: InputEvent) -> Seq<U> {
        if is_key_event(e) && e.value == PRESSED {
            fired(self.hotkeys(true), e.code, self.held().insert(e.code))
        } else if is_key_event(e) && e.value == RELEASED {
            fired(self.hotkeys(false), e.code, self.held())
        } else {
            Seq::empty()
        }
    }

    /// An event with its key replaced.
    pub open spec fn mapped(self, e: InputEvent) -> InputEvent {
        if is_key_event(e) && self.remaps().contains_key(e.code) {
            InputEvent { code: self.remaps()[e.code]@, ..e }
        } else {
            e
        }
    }

    pub fn new() -> (events: Events<U>)
        ensures
            events.wf(),
            events.hotkeys(true) == Seq::<Hotkey<U>>::empty(),
            events.hotkeys(false) == Seq::<Hotkey<U>>::empty(),
            events.remaps() == Map::<u16, Key>::empty(),
            events.held() == Set::<u16>::empty(),
    {
        Events {
            press: Triggers::new(),
            release: Triggers::new(),
            remap: HashMap::new(),
            keys: KeyMask::new(),
        }
    }

    /// Adds a hotkey that acts on the press or on the release of its triggers.
    pub fn add_hotkey(&mut self, hotkey: Hotkey<U>, on_press: bool)
        requires
            old(self).wf(),
            old(self).hotkeys(on_press).len() < usize::MAX,
        ensures
            final(self).wf(),
            final(self).hotkeys(on_press) == old(self).hotkeys(on_press).push(hotkey),
            final(self).hotkeys(!on_press) == old(self).hotkeys(!on_press),
            final(self).remaps() == old(self).remaps(),
            final(self).held() == old(self).held(),
    {
        if on_press {
            self.press.add(hotkey);
        } else {
            self.release.add(hotkey);
        }
        assert(self.held() == old(self).held());
    }

    /// Replaces a key by another one.
    pub fn add_remap(&mut self, from: Key, to: Key)
        ensures
            final(self).remaps() == old(self).remaps().insert(from@, to),
            final(self).held() == old(self).held(),
            old(self).wf() ==> final(self).wf(),
            final(self).hotkeys(true) == old(self).hotkeys(true),
            final(self).hotkeys(false) == old(self).hotkeys(false),
    {
        broadcast use group_hash_axioms;

        self.remap.insert(from.code(), to);
        assert(self.held() == old(self).held());
    }

    pub fn map_input_event(&self, e: InputEvent) -> (mapped: InputEvent)
        ensures
            mapped == self.mapped(e),
    {
        broadcast use group_hash_axioms;

        match EventRef::new(&e) {
            Ok(EventRef::Key { key, .. }) => {
                match self.remap.get(&key.code()) {
                    Some(to) => InputEvent { code: to.code(), ..e },
                    None => e,
                }
            },
            _ => e,
        }
    }

    /// Takes note of an event, and gives what the hotkeys cause.
    pub fn process_input_event(&mut self, e: &InputEvent) -> (caused: Vec<&U>)
        requires
            old(self).wf(),
        ensures
            caused@.map_values(|u: &U| *u) == old(self).caused(*e),
            final(self).held() == held_after(old(self).held(), *e),
            final(self).same_setup(*old(self)),
            final(self).wf(),
    {
        match EventRef::new(e) {
            Ok(read) => self.process_input_event_(read),
            Err(_) => Vec::new(),
        }
    }

    fn process_input_event_(&mut self, e: EventRef) -> (caused: Vec<&U>)
        requires
            old(self).wf(),
        ensures
            forall|event: InputEvent|
                #![trigger old(self).caused(event)]
                event.in_range() && e.reads(event) ==> caused@.map_values(|u: &U| *u) == old(
                    self,
                ).caused(event),
            forall|event: InputEvent|
                #![trigger held_after(old(self).held(), event)]
                event.in_range() && e.reads(event) ==> final(self).held() == held_after(
                    old(self).held(),
                    event,
                ),
            final(self).same_setup(*old(self)),
            final(self).wf(),
    {
        match e {
            EventRef::Key { key, value } => {
                let code = key.code();
                if value == PRESSED {
                    self.keys.insert(code);
                    assert(self.held() == old(self).held().insert(code));
                    self.press.fire(code, &self.keys)
                } else if value == RELEASED {
                    let caused = self.release.fire(code, &self.keys);
                    self.keys.remove(code);
                    assert(self.held() == old(self).held().remove(code));
                    caused
                } else {
                    let caused: Vec<&U> = Vec::new();
                    assert(caused@.map_values(|u: &U| *u) =~= Seq::<U>::empty());
                    caused
                }
            },
            _ => {
                let caused: Vec<&U> = Vec::new();
                assert(caused@.map_values(|u: &U| *u) =~= Seq::<U>::empty());
                caused
            },
        }
    }

    /// What an event of the window leads to. Losing the focus releases the
    /// keys that are down, in ascending order.
    pub fn process_x_event(&mut self, e: &XEvent) -> (events: Vec<ProcessedXEvent>)
        requires
            old(self).wf(),
        ensures
            events@ == processed(*e, ascending(old(self).held())),
            final(self).held() == if *e == XEvent::Focus(false) {
                Set::empty()
            } else {
                old(self).held()
            },
            final(self).same_setup(*old(self)),
            final(self).wf(),
    {
        let mut events = XEventBuf::new();
        match *e {
            XEvent::Close => {
                events.push(ProcessedXEvent::from(UserEvent::Quit));
            },
            XEvent::Visible(visible) => {
                events.push(
                    ProcessedXEvent::from(
                        if visible {
                            UserEvent::ShowGuest
                        } else {
                            UserEvent::ShowHost
                        },
                    ),
                );
            },
            XEvent::Focus(focus) => {
                if !focus {
                    events = self.unstick_guest_();
                }
            },
            XEvent::Input(e) => {
                events.push(ProcessedXEvent::from(e));
            },
        }
        assert(buffered_x(events) =~= processed(*e, ascending(old(self).held())));
        events.into_vec()
    }

    /// Releases the keys that are down, in ascending order.
    pub fn unstick_guest(&mut self) -> (events: Vec<InputEvent>)
        requires
            old(self).wf(),
        ensures
            events@ == unstick_events(ascending(old(self).held())),
            final(self).held() == Set::<u16>::empty(),
            final(self).same_setup(*old(self)),
            final(self).wf(),
    {
        let codes = self.keys.codes();
        let mut events = InputEventBuf::new();
        let ghost release = |code: u16| release_event(code);
        for i in 0..codes.len()
            invariant
                release == (|code: u16| release_event(code)),
                buffered_input(events) == codes@.take(i as int).map_values(release),
        {
            events.push(InputEvent::new(EventKind::Key, codes[i], RELEASED));
            proof {
                assert(codes@.take(i + 1).map_values(release) =~= codes@.take(i as int).map_values(
                    release,
                ).push(release_event(codes@[i as int])));
            }
        }
        assert(codes@.take(codes@.len() as int) =~= codes@);
        events.push(InputEvent::report());
        self.keys.clear();
        events.into_vec()
    }

    fn unstick_guest_(&mut self) -> (events: XEventBuf)
        requires
            old(self).wf(),
        ensures
            buffered_x(events) == processed(XEvent::Focus(false), ascending(old(self).held())),
            final(self).held() == Set::<u16>::empty(),
            final(self).same_setup(*old(self)),
            final(self).wf(),
    {
        let releases = self.unstick_guest();
        let mut events = XEventBuf::new();
        let ghost wrap = |e: InputEvent| ProcessedXEvent::InputEvent(e);
        for i in 0..releases.len()
            invariant
                wrap == (|e: InputEvent| ProcessedXEvent::InputEvent(e)),
                buffered_x(events) == releases@.take(i as int).map_values(wrap),
        {
            events.push(ProcessedXEvent::from(releases[i]));
            proof {
                assert(releases@.take(i + 1).map_values(wrap) =~= releases@.take(
                    i as int,
                ).map_values(wrap).push(ProcessedXEvent::InputEvent(releases@[i as int])));
            }
        }
        assert(releases@.take(releases@.len() as int) =~= releases@);
        events
    }
}

/// Which keys are down after some events.
pub open spec fn held_after_all(held: Set<u16>, events: Seq<InputEvent>) -> Set<u16>
    decreases events.len(),
{
    if events.len() == 0 {
        held
    } else {
        held_after(held_after_all(held, events.drop_last()), events.last())
    }
}

/// A key that goes down and up again is up, and no other key has moved.
pub proof fn press_and_release_cancel(held: Set<u16>, key: Key)
    requires
        key@ < KEY_COUNT,
    ensures
        held_after_all(
            held,
            seq![
                event_of(EventKind::Key, key@, PRESSED),
                event_of(EventKind::Key, key@, RELEASED),
            ],
        ) == held.remove(key@),
{
    reveal_with_fuel(held_after_all, 3);
    let events = seq![
        event_of(EventKind::Key, key@, PRESSED),
        event_of(EventKind::Key, key@, RELEASED),
    ];
    assert(events.drop_last().drop_last() =~= Seq::<InputEvent>::empty());
    assert(held.insert(key@).remove(key@) =~= held.remove(key@));
}

proof fn lemma_releases(held: Set<u16>, codes: Seq<u16>)
    requires
        forall|i: int| 0 <= i < codes.len() ==> #[trigger] codes[i] < KEY_COUNT,
    ensures
        held_after_all(held, codes.map_values(|code: u16| release_event(code))) == held.difference(
            codes.to_set(),
        ),
    decreases codes.len(),
{
    let release = |code: u16| release_event(code);
    let events = codes.map_values(release);
    if codes.len() == 0 {
        assert(held =~= held.difference(codes.to_set()));
    } else {
        let fewer = codes.drop_last();
        lemma_releases(held, fewer);
        assert(events.drop_last() =~= fewer.map_values(release));
        assert(codes.to_set() =~= fewer.to_set().insert(codes.last())) by {
            assert(codes =~= fewer.push(codes.last()));
            assert forall|c: u16| codes.contains(c) <==> fewer.contains(c) || c == codes.last() by {
                if fewer.contains(c) {
                    let i = choose|i: int| 0 <= i < fewer.len() && fewer[i] == c;
                    assert(codes[i] == c);
                }
                if c == codes.last() {
                    assert(codes[codes.len() - 1] == c);
                }
                if codes.contains(c) && c != codes.last() {
                    let i = choose|i: int| 0 <= i < codes.len() && codes[i] == c;
                    assert(fewer[i] == c);
                }
            }
        }
        assert(held.difference(fewer.to_set()).remove(codes.last()) =~= held.difference(
            codes.to_set(),
        ));
    }
}

/// The events that unstick the guest leave no key down, whatever keys were.
pub proof fn unstick_events_release_everything(held: Set<u16>)
    requires
        forall|code: u16| held.contains(code) ==> code < KEY_COUNT,
    ensures
        held_after_all(held, unstick_events(ascending(held))) == Set::<u16>::empty(),
{
    let codes = ascending(held);
    let releases = codes.map_values(|code: u16| release_event(code));
    ascending_lists_the_set(held);
    assert forall|i: int| 0 <= i < codes.len() implies #[trigger] codes[i] < KEY_COUNT by {
        assert(codes.contains(codes[i]));
    }
    lemma_releases(held, codes);
    assert(unstick_events(codes).drop_last() =~= releases);
    assert(held.difference(codes.to_set()) =~= Set::<u16>::empty()) by {
        assert forall|c: u16| held.contains(c) implies codes.to_set().contains(c) by {
            assert(codes.contains(c));
        }
    }
}

/// With no key down, unsticking the guest gives nothing but the end of a
/// group.
pub proof fn unsticking_again_releases_nothing()
    ensures
        unstick_events(ascending(Set::empty())) == seq![report_event()],
{
    let codes = ascending(Set::<u16>::empty());
    ascending_lists_the_set(Set::<u16>::empty());
    if codes.len() > 0 {
        assert(codes.contains(codes[0]));
    }
    assert(unstick_events(codes) =~= seq![report_event()]);
}

/// Only a hotkey that is down and has the key among its triggers acts.
pub proof fn only_complete_hotkeys_fire<U>(
    hotkeys: Seq<Hotkey<U>>,
    code: u16,
    down: Set<u16>,
)
    requires
        forall|i: int|
            0 <= i < hotkeys.len() ==> !#[trigger] hotkeys[i].is_down(down) || occurrences(
                hotkeys[i].trigger_keys(),
                code,
            ) == 0,
    ensures
        fired(hotkeys, code, down) == Seq::<U>::empty(),
    decreases hotkeys.len(),
{
    if hotkeys.len() > 0 {
        let fewer = hotkeys.drop_last();
        assert forall|i: int| 0 <= i < fewer.len() implies !#[trigger] fewer[i].is_down(down)
            || occurrences(fewer[i].trigger_keys(), code) == 0 by {
            assert(fewer[i] == hotkeys[i]);
            assert(!hotkeys[i].is_down(down) || occurrences(hotkeys[i].trigger_keys(), code) == 0);
        }
        only_complete_hotkeys_fire(fewer, code, down);
        let h = hotkeys.last();
        assert(!hotkeys[hotkeys.len() - 1].is_down(down) || occurrences(h.trigger_keys(), code)
            == 0);
        assert(fired(hotkeys, code, down) =~= Seq::<U>::empty());
    }
}

/// Whether every key of a hotkey, trigger or modifier, is among some keys.
pub open spec fn has_all_keys<U>(hotkey: Hotkey<U>, down: Set<u16>) -> bool {
    &&& forall|key: Key| #[trigger] hotkey.trigger_keys().contains(key) ==> down.contains(key@)
    &&& forall|key: Key| #[trigger] hotkey.modifier_keys().contains(key) ==> down.contains(key@)
}

/// How many keys of a list have a code.
pub open spec fn times_named(keys: Seq<Key>, code: u16) -> nat {
    keys.filter(|key: Key| key@ == code).len()
}

proof fn lemma_is_down<U>(hotkey: Hotkey<U>, down: Set<u16>)
    ensures
        hotkey.is_down(down) == has_all_keys(hotkey, down),
{
    if hotkey.is_down(down) {
        assert forall|key: Key| #[trigger] hotkey.trigger_keys().contains(key) implies down.contains(
            key@,
        ) by {
            let i = hotkey.trigger_keys().index_of(key);
            assert(hotkey.trigger_keys()[i] == key);
        }
        assert forall|key: Key| #[trigger]
            hotkey.modifier_keys().contains(key) implies down.contains(key@) by {
            let i = hotkey.modifier_keys().index_of(key);
            assert(hotkey.modifier_keys()[i] == key);
        }
    }
    if has_all_keys(hotkey, down) {
        assert forall|i: int| 0 <= i < hotkey.trigger_keys().len() implies down.contains(
            #[trigger] hotkey.trigger_keys()[i]@,
        ) by {
            assert(hotkey.trigger_keys().contains(hotkey.trigger_keys()[i]));
        }
        assert forall|i: int| 0 <= i < hotkey.modifier_keys().len() implies down.contains(
            #[trigger] hotkey.modifier_keys()[i]@,
        ) by {
            assert(hotkey.modifier_keys().contains(hotkey.modifier_keys()[i]));
        }
    }
}

proof fn lemma_times_named(keys: Seq<Key>, code: u16)
    ensures
        occurrences(keys, code) == times_named(keys, code),
        occurrences(keys, code) > 0 ==> exists|key: Key| #[trigger]
            keys.contains(key) && key@ == code,
        (exists|key: Key| #[trigger] keys.contains(key) && key@ == code) ==> occurrences(keys, code)
            > 0,
    decreases keys.len(),
{
    reveal(Seq::filter);
    if keys.len() > 0 {
        let fewer = keys.drop_last();
        lemma_times_named(fewer, code);
        if occurrences(keys, code) > 0 {
            if keys.last()@ == code {
                assert(keys.contains(keys.last()));
            } else {
                let key = choose|key: Key| #[trigger] fewer.contains(key) && key@ == code;
                assert(keys[fewer.index_of(key)] == key);
                assert(keys.contains(key));
            }
        }
        if exists|key: Key| #[trigger] keys.contains(key) && key@ == code {
            let key = choose|key: Key| #[trigger] keys.contains(key) && key@ == code;
            let i = keys.index_of(key);
            if i < fewer.len() {
                assert(fewer[i] == key);
                assert(fewer.contains(key));
            }
        }
    }
}

proof fn lemma_fired_are_complete<U>(hotkeys: Seq<Hotkey<U>>, code: u16, down: Set<u16>, i: int)
    requires
        0 <= i < fired(hotkeys, code, down).len(),
    ensures
        exists|hotkey: Hotkey<U>|
            {
                &&& #[trigger] hotkeys.contains(hotkey)
                &&& hotkey.caused().contains(fired(hotkeys, code, down)[i])
                &&& has_all_keys(hotkey, down)
                &&& times_named(hotkey.trigger_keys(), code) > 0
            },
    decreases hotkeys.len(),
{
    let fewer = hotkeys.drop_last();
    let before = fired(fewer, code, down);
    let last = hotkeys.last();
    let n = occurrences(last.trigger_keys(), code);
    if i < before.len() {
        lemma_fired_are_complete(fewer, code, down, i);
        let hotkey = choose|hotkey: Hotkey<U>|
            {
                &&& #[trigger] fewer.contains(hotkey)
                &&& hotkey.caused().contains(before[i])
                &&& has_all_keys(hotkey, down)
                &&& times_named(hotkey.trigger_keys(), code) > 0
            };
        assert(hotkeys[fewer.index_of(hotkey)] == hotkey);
        assert(hotkeys.contains(hotkey));
        assert(fired(hotkeys, code, down)[i] == before[i]);
    } else {
        lemma_is_down(last, down);
        lemma_times_named(last.trigger_keys(), code);
        lemma_repeated(last.caused(), n);
        assert(hotkeys.contains(last));
        let again = repeated(last.caused(), n);
        let k = i - before.len();
        assert(fired(hotkeys, code, down)[i] == again[k]);
        if n == 0 {
            assert(again.len() == 0);
        }
    }
}

proof fn lemma_repeated<T>(s: Seq<T>, times: nat)
    ensures
        repeated(s, times).len() == times * s.len(),
        forall|k: int|
            0 <= k < repeated(s, times).len() ==> s.contains(#[trigger] repeated(s, times)[k]),
        times > 0 ==> forall|t: T| #[trigger]
            s.contains(t) ==> repeated(s, times).contains(t),
        times == 1 ==> repeated(s, times) == s,
        forall|k: int|
            0 <= k < repeated(s, times).len() ==> #[trigger] repeated(s, times)[k] == s[k
                % s.len() as int],
    decreases times,
{
    if times > 0 {
        let fewer = (times - 1) as nat;
        lemma_repeated(s, fewer);
        let all = repeated(s, times);
        let before = repeated(s, fewer);
        assert(fewer * s.len() + s.len() == times * s.len()) by (nonlinear_arith)
            requires
                times == fewer + 1,
        ;
        assert forall|k: int| 0 <= k < all.len() implies s.contains(#[trigger] all[k]) by {
            if k < before.len() {
                assert(all[k] == before[k]);
            } else {
                assert(all[k] == s[k - before.len()]);
            }
        }
        assert forall|t: T| #[trigger] s.contains(t) implies all.contains(t) by {
            assert(all[before.len() + s.index_of(t)] == t);
        }
        assert forall|k: int| 0 <= k < all.len() implies #[trigger] all[k] == s[k
            % s.len() as int] by {
            if k < before.len() {
                assert(all[k] == before[k]);
            } else {
                let n = s.len() as int;
                let i = k - before.len();
                assert(all[k] == s[i]);
                assert((fewer * n + i) % n == i) by (nonlinear_arith)
                    requires
                        0 <= i < n,
                        0 <= fewer,
                ;
            }
        }
        if times == 1 {
            assert(all =~= s);
        }
    } else {
        assert(0 * s.len() == 0) by (nonlinear_arith);
    }
}

proof fn lemma_complete_are_fired<U>(hotkeys: Seq<Hotkey<U>>, code: u16, down: Set<u16>, i: int)
    requires
        0 <= i < hotkeys.len(),
        has_all_keys(hotkeys[i], down),
        times_named(hotkeys[i].trigger_keys(), code) > 0,
    ensures
        forall|event: U| #[trigger]
            hotkeys[i].caused().contains(event) ==> fired(hotkeys, code, down).contains(event),
    decreases hotkeys.len(),
{
    let fewer = hotkeys.drop_last();
    let before = fired(fewer, code, down);
    let all = fired(hotkeys, code, down);
    if i < fewer.len() {
        lemma_complete_are_fired(fewer, code, down, i);
        assert(fewer[i] == hotkeys[i]);
        assert forall|event: U| #[trigger] hotkeys[i].caused().contains(event) implies all.contains(
            event,
        ) by {
            assert(fewer[i].caused().contains(event));
            assert(all[before.index_of(event)] == event);
        }
    } else {
        let last = hotkeys.last();
        let n = occurrences(last.trigger_keys(), code);
        lemma_is_down(last, down);
        lemma_times_named(last.trigger_keys(), code);
        lemma_repeated(last.caused(), n);
        let again = repeated(last.caused(), n);
        assert forall|event: U| #[trigger] hotkeys[i].caused().contains(event) implies all.contains(
            event,
        ) by {
            assert(again.contains(event));
            assert(all[before.len() + again.index_of(event)] == event);
        }
    }
}

/// The keys that count as down while the hotkeys of an event are looked up: those
/// that were down, and the one that goes down.
pub open spec fn down_during(held: Set<u16>, e: InputEvent) -> Set<u16> {
    if e.value == 1 {
        held.insert(e.code)
    } else {
        held
    }
}

/// What an event causes comes from hotkeys that name its key as a trigger, and of
/// which every trigger and every modifier is down: one that misses a single key
/// causes nothing. Only a key that goes down or up causes anything; the hotkeys
/// for a press and those for a release do not mix.
pub proof fn hotkeys_need_all_their_keys<U>(
    before: Events<U>,
    e: InputEvent,
    caused: Vec<&U>,
    i: int,
)
    requires
        before.wf(),
        exists|this: &mut Events<U>| #[trigger]
            call_ensures(Events::<U>::process_input_event, (this, &e), caused) && *this == before,
        0 <= i < caused@.len(),
    ensures
        e.kind is Key,
        e.value == 1 || e.value == 0,
        exists|hotkey: Hotkey<U>|
            {
                &&& before.hotkeys(e.value == 1).contains(hotkey)
                &&& hotkey.caused().contains(*caused@[i])
                &&& #[trigger] has_all_keys(hotkey, down_during(before.held(), e))
                &&& times_named(hotkey.trigger_keys(), e.code) > 0
            },
{
    let views = caused@.map_values(|u: &U| *u);
    assert(views == before.caused(e));
    assert(views[i] == *caused@[i]);
    lemma_fired_are_complete(
        before.hotkeys(e.value == 1),
        e.code,
        down_during(before.held(), e),
        i,
    );
}

/// A hotkey that names the key of an event as a trigger, and of which every key is
/// down, causes its events.
pub proof fn complete_hotkeys_act<U>(
    before: Events<U>,
    e: InputEvent,
    caused: Vec<&U>,
    hotkey: Hotkey<U>,
    event: U,
)
    requires
        before.wf(),
        exists|this: &mut Events<U>| #[trigger]
            call_ensures(Events::<U>::process_input_event, (this, &e), caused) && *this == before,
        e.kind is Key,
        e.code < 0x300,
        e.value == 1 || e.value == 0,
        before.hotkeys(e.value == 1).contains(hotkey),
        has_all_keys(hotkey, down_during(before.held(), e)),
        times_named(hotkey.trigger_keys(), e.code) > 0,
        hotkey.caused().contains(event),
    ensures
        exists|i: int| 0 <= i < caused@.len() && *(#[trigger] caused@[i]) == event,
{
    let hotkeys = before.hotkeys(e.value == 1);
    let down = down_during(before.held(), e);
    let at = hotkeys.index_of(hotkey);
    lemma_complete_are_fired(hotkeys, e.code, down, at);
    let views = caused@.map_values(|u: &U| *u);
    assert(views == before.caused(e));
    assert(views.contains(event));
    let i = views.index_of(event);
    assert(*caused@[i] == event);
}

/// What a list of hotkeys causes: the events of each one that acts, in the order
/// in which the hotkeys were added, once for each time that it names the key.
pub proof fn hotkeys_act_in_order<U>(
    hotkeys: Seq<Hotkey<U>>,
    hotkey: Hotkey<U>,
    code: u16,
    down: Set<u16>,
)
    ensures
        fired(Seq::<Hotkey<U>>::empty(), code, down).len() == 0,
        ({
            let own = fired(hotkeys.push(hotkey), code, down).skip(
                fired(hotkeys, code, down).len() as int,
            );
            let acts = has_all_keys(hotkey, down);
            let times = times_named(hotkey.trigger_keys(), code);
            &&& fired(hotkeys, code, down).is_prefix_of(fired(hotkeys.push(hotkey), code, down))
            &&& own.len() == if acts {
                times * hotkey.caused().len()
            } else {
                0
            }
            &&& acts && times == 1 ==> own == hotkey.caused()
            &&& forall|k: int|
                0 <= k < own.len() ==> #[trigger] own[k] == hotkey.caused()[k
                    % hotkey.caused().len() as int]
        }),
{
    let all = hotkeys.push(hotkey);
    assert(all.drop_last() =~= hotkeys);
    lemma_is_down(hotkey, down);
    lemma_times_named(hotkey.trigger_keys(), code);
    lemma_repeated(hotkey.caused(), occurrences(hotkey.trigger_keys(), code));
    let before = fired(hotkeys, code, down);
    let own = if hotkey.is_down(down) {
        repeated(hotkey.caused(), occurrences(hotkey.trigger_keys(), code))
    } else {
        Seq::empty()
    };
    assert((before + own).skip(before.len() as int) =~= own);
}

/// A key is down from its press to its release, and no other event changes which
/// keys are; the hotkeys and the replaced keys stay.
pub proof fn keys_are_down_from_press_to_release<U>(
    before: Events<U>,
    e: InputEvent,
    caused: Vec<&U>,
    after: Events<U>,
    code: u16,
)
    requires
        before.wf(),
        exists|this: &mut Events<U>| #[trigger]
            call_ensures(Events::<U>::process_input_event, (this, &e), caused) && *this == before
                && *final(this) == after,
    ensures
        ({
            let about = e.kind is Key && e.code == code && code < 0x300;
            &&& about && e.value == 1 ==> after.held().contains(code)
            &&& about && e.value == 0 ==> !after.held().contains(code)
            &&& !about || e.value != 0 && e.value != 1 ==> after.held().contains(code)
                == before.held().contains(code)
        }),
        after.hotkeys(true) == before.hotkeys(true),
        after.hotkeys(false) == before.hotkeys(false),
        after.remaps() == before.remaps(),
{
}

/// A key that is replaced by another one is that one from then on, going down and
/// up alike; all else of its events, and all other events, stay as they were.
pub proof fn replaced_keys_are_the_others<U>(
    before: Events<U>,
    from: Key,
    to: Key,
    after: Events<U>,
    e: InputEvent,
    unmapped: InputEvent,
    mapped: InputEvent,
)
    requires
        exists|this: &mut Events<U>, r: ()| #[trigger]
            call_ensures(Events::<U>::add_remap, (this, from, to), r) && *this == before
                && *final(this) == after,
        call_ensures(Events::<U>::map_input_event, (&before, e), unmapped),
        call_ensures(Events::<U>::map_input_event, (&after, e), mapped),
    ensures
        mapped.time == e.time && mapped.kind == e.kind && mapped.value == e.value,
        e.kind is Key && e.code == from@ && from@ < 0x300 ==> mapped.code == to@,
        !(e.kind is Key && e.code == from@) ==> mapped.code == unmapped.code,
        !(e.kind is Key) ==> mapped == e,
        before.remaps() == Map::<u16, Key>::empty() ==> unmapped == e,
{
}

/// Adding a hotkey leaves the ones that were there, in their order, and is the
/// last of those for a press, or of those for a release.
pub proof fn hotkeys_are_added_at_the_end<U>(
    before: Events<U>,
    hotkey: Hotkey<U>,
    on_press: bool,
    after: Events<U>,
)
    requires
        before.wf(),
        exists|this: &mut Events<U>, r: ()| #[trigger]
            call_ensures(Events::<U>::add_hotkey, (this, hotkey, on_press), r) && *this == before
                && *final(this) == after,
    ensures
        after.hotkeys(on_press).len() == before.hotkeys(on_press).len() + 1,
        after.hotkeys(on_press).last() == hotkey,
        after.hotkeys(on_press).drop_last() == before.hotkeys(on_press),
        after.hotkeys(!on_press) == before.hotkeys(!on_press),
        after.held() == before.held(),
        after.remaps() == before.remaps(),
{
    assert(after.hotkeys(on_press).drop_last() =~= before.hotkeys(on_press));
}

/// The keys that are down are let go of, each one once and in ascending order, and
/// the group is ended; then none is down.
pub proof fn unsticking_lets_go_of_every_key<U>(
    before: Events<U>,
    events: Vec<InputEvent>,
    after: Events<U>,
)
    requires
        before.wf(),
        exists|this: &mut Events<U>| #[trigger]
            call_ensures(Events::<U>::unstick_guest, (this,), events) && *this == before
                && *final(this) == after,
    ensures
        is_letting_go(before.held(), events@),
        forall|code: u16| !#[trigger] after.held().contains(code),
        after.hotkeys(true) == before.hotkeys(true),
        after.hotkeys(false) == before.hotkeys(false),
        after.remaps() == before.remaps(),
{
    lemma_letting_go(before, events@);
}

/// Whether some events are the releases of some keys, each one once and in
/// ascending order, and the end of the group.
pub open spec fn is_letting_go(held: Set<u16>, events: Seq<InputEvent>) -> bool {
    &&& events.len() > 0
    &&& events.last().kind is Synchronize && events.last().code == 0 && events.last().value == 0
    &&& forall|i: int|
        0 <= i < events.len() - 1 ==> {
            &&& (#[trigger] events[i]).kind is Key
            &&& events[i].value == 0
            &&& held.contains(events[i].code)
        }
    &&& forall|i: int, j: int|
        0 <= i < j < events.len() - 1 ==> (#[trigger] events[i]).code < (#[trigger] events[j]).code
    &&& forall|code: u16| #[trigger]
        held.contains(code) ==> exists|i: int|
            0 <= i < events.len() - 1 && (#[trigger] events[i]).code == code
}

proof fn lemma_letting_go<U>(before: Events<U>, events: Seq<InputEvent>)
    requires
        before.wf(),
        events == unstick_events(ascending(before.held())),
    ensures
        is_letting_go(before.held(), events),
{
    let held = before.held();
    let codes = ascending(held);
    ascending_lists_the_set(held);
    assert(events.len() == codes.len() + 1);
    assert forall|i: int| 0 <= i < events.len() - 1 implies {
        &&& (#[trigger] events[i]).kind is Key
        &&& events[i].value == 0
        &&& held.contains(events[i].code)
    } by {
        assert(events[i] == release_event(codes[i]));
        assert(codes.contains(codes[i]));
    }
    assert forall|i: int, j: int| 0 <= i < j < events.len() - 1 implies (#[trigger] events[i]).code
        < (#[trigger] events[j]).code by {
        assert(events[i] == release_event(codes[i]) && events[j] == release_event(codes[j]));
    }
    assert forall|code: u16| #[trigger] held.contains(code) implies exists|i: int|
        0 <= i < events.len() - 1 && (#[trigger] events[i]).code == code by {
        assert(codes.contains(code));
        let i = codes.index_of(code);
        assert(events[i] == release_event(codes[i]));
    }
}

/// The window closing asks for the end, its showing and hiding for the guest and
/// the host to be shown, and its input is passed on. Losing the focus lets go of
/// the keys that are down; getting it does nothing. Only losing the focus changes
/// which keys are down.
pub proof fn window_events_lead_on<U>(
    before: Events<U>,
    e: XEvent,
    events: Vec<ProcessedXEvent>,
    after: Events<U>,
)
    requires
        before.wf(),
        exists|this: &mut Events<U>| #[trigger]
            call_ensures(Events::<U>::process_x_event, (this, &e), events) && *this == before
                && *final(this) == after,
    ensures
        e is Close ==> events@ == seq![ProcessedXEvent::UserEvent(UserEvent::Quit)],
        e matches XEvent::Visible(visible) ==> events@ == seq![
            ProcessedXEvent::UserEvent(
                if visible {
                    UserEvent::ShowGuest
                } else {
                    UserEvent::ShowHost
                },
            ),
        ],
        e matches XEvent::Input(input) ==> events@ == seq![ProcessedXEvent::InputEvent(input)],
        e == XEvent::Focus(true) ==> events@.len() == 0,
        e == XEvent::Focus(false) ==> {
            &&& forall|i: int| 0 <= i < events@.len() ==> #[trigger] events@[i] is InputEvent
            &&& is_letting_go(
                before.held(),
                events@.map_values(|p: ProcessedXEvent| p->InputEvent_0),
            )
            &&& forall|code: u16| !#[trigger] after.held().contains(code)
        },
        e != XEvent::Focus(false) ==> after.held() == before.held(),
        after.hotkeys(true) == before.hotkeys(true),
        after.hotkeys(false) == before.hotkeys(false),
        after.remaps() == before.remaps(),
{
    if e == XEvent::Focus(false) {
        let releases = unstick_events(ascending(before.held()));
        lemma_letting_go(before, releases);
        let wrap = |e: InputEvent| ProcessedXEvent::InputEvent(e);
        assert(events@ == releases.map_values(wrap));
        assert(events@.map_values(|p: ProcessedXEvent| p->InputEvent_0) =~= releases);
        assert forall|i: int| 0 <= i < events@.len() implies #[trigger] events@[i] is InputEvent by {
            assert(events@[i] == wrap(releases[i]));
        }
    }
    if e is Visible {
        assert(e == XEvent::Visible(true) || e == XEvent::Visible(false));
    }
}

/// The keys of a hotkey are its triggers and then its modifiers.
pub proof fn hotkeys_have_their_keys<U>(
    triggers: Vec<Key>,
    modifiers: Vec<Key>,
    events: Vec<U>,
    hotkey: Hotkey<U>,
    keys: Vec<Key>,
)
    requires
        call_ensures(Hotkey::<U>::new, (triggers, modifiers, events), hotkey),
        call_ensures(Hotkey::<U>::keys, (&hotkey,), keys),
    ensures
        keys@ == triggers@ + modifiers@,
        hotkey.trigger_keys() == triggers@,
        hotkey.modifier_keys() == modifiers@,
        hotkey.caused() == events@,
{
}

/// An event of a key that goes down or up causes what the hotkeys for that cause, in
/// their order; any other event causes nothing.
pub proof fn events_cause_what_their_hotkeys_do<U>(
    before: Events<U>,
    e: InputEvent,
    caused: Vec<&U>,
)
    requires
        before.wf(),
        exists|this: &mut Events<U>| #[trigger]
            call_ensures(Events::<U>::process_input_event, (this, &e), caused) && *this == before,
    ensures
        ({
            let acts = e.kind is Key && e.code < 0x300 && (e.value == 0 || e.value == 1);
            let all = fired(
                before.hotkeys(e.value == 1),
                e.code,
                down_during(before.held(), e),
            );
            &&& !acts ==> caused@.len() == 0
            &&& acts ==> caused@.len() == all.len() && forall|i: int|
                0 <= i < all.len() ==> *(#[trigger] caused@[i]) == all[i]
        }),
{
    let views = caused@.map_values(|u: &U| *u);
    assert(views == before.caused(e));
    assert(views.len() == caused@.len());
    assert forall|i: int| 0 <= i < caused@.len() implies *(#[trigger] caused@[i])
        == before.caused(e)[i] by {
        assert(views[i] == *caused@[i]);
    }
}

} // verus!
