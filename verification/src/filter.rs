//! Classes of input events that are held back.

use crate::config::{class_of, ConfigInputEvent};
use crate::input::InputEvent;
use vstd::prelude::*;

verus! {

/// A set of classes of input events, one bit for each.
#[derive(Debug, Clone, Copy, PartialEq, Eq, Structural)]
pub struct EventFlags {
    bits: u8,
}

impl ConfigInputEvent {
    /// The bit of a class.
    pub open spec fn bit(self) -> u8 {
        match self {
            ConfigInputEvent::Key => 0x01,
            ConfigInputEvent::Button => 0x02,
            ConfigInputEvent::Relative => 0x04,
            ConfigInputEvent::Absolute => 0x08,
            ConfigInputEvent::Misc => 0x10,
            ConfigInputEvent::Switch => 0x20,
            ConfigInputEvent::Led => 0x40,
            ConfigInputEvent::Sound => 0x80,
        }
    }

    pub fn bits(&self) -> (bit: u8)
        ensures
            bit == self.bit(),
    {
        match *self {
            ConfigInputEvent::Key => 0x01,
            ConfigInputEvent::Button => 0x02,
            ConfigInputEvent::Relative => 0x04,
            ConfigInputEvent::Absolute => 0x08,
            ConfigInputEvent::Misc => 0x10,
            ConfigInputEvent::Switch => 0x20,
            ConfigInputEvent::Led => 0x40,
            ConfigInputEvent::Sound => 0x80,
        }
    }
}

proof fn lemma_bits(a: u8, b: u8, x: ConfigInputEvent, y: ConfigInputEvent)
    ensures
        (a | b) & x.bit() == x.bit() <==> (a & x.bit() == x.bit() || b & x.bit() == x.bit()),
        (a & !b) & x.bit() == x.bit() <==> (a & x.bit() == x.bit() && b & x.bit() != x.bit()),
        y.bit() & x.bit() == x.bit() <==> x == y,
        0u8 & x.bit() != x.bit(),
{
    let p = x.bit();
    let q = y.bit();
    assert((a | b) & p == p <==> (a & p == p || b & p == p)) by (bit_vector)
        requires
            p == 1 || p == 2 || p == 4 || p == 8 || p == 16 || p == 32 || p == 64 || p == 128,
    ;
    assert((a & !b) & p == p <==> (a & p == p && b & p != p)) by (bit_vector)
        requires
            p == 1 || p == 2 || p == 4 || p == 8 || p == 16 || p == 32 || p == 64 || p == 128,
    ;
    assert(q & p == p <==> p == q) by (bit_vector)
        requires
            p == 1 || p == 2 || p == 4 || p == 8 || p == 16 || p == 32 || p == 64 || p == 128,
            q == 1 || q == 2 || q == 4 || q == 8 || q == 16 || q == 32 || q == 64 || q == 128,
    ;
    assert(0u8 & p == 0u8) by (bit_vector);
}

impl EventFlags {
    closed spec fn has(self, class: ConfigInputEvent) -> bool {
        self.bits & class.bit() == class.bit()
    }

    /// The classes in the set.
    pub closed spec fn classes(self) -> Set<ConfigInputEvent> {
        Set::new(|class: ConfigInputEvent| self.has(class))
    }

    pub fn empty() -> (flags: EventFlags)
        ensures
            flags.classes() == Set::<ConfigInputEvent>::empty(),
    {
        let flags = EventFlags { bits: 0 };
        proof {
            assert forall|c: ConfigInputEvent| !flags.has(c) by {
                lemma_bits(0, 0, c, c);
            }
            assert(flags.classes() =~= Set::<ConfigInputEvent>::empty());
        }
        flags
    }

    pub fn contains(&self, class: ConfigInputEvent) -> (has: bool)
        ensures
            has == self.classes().contains(class),
    {
        self.bits & class.bits() == class.bits()
    }

    /// Adds every class of another set.
    pub fn insert(&mut self, other: EventFlags)
        ensures
            final(self).classes() == old(self).classes().union(other.classes()),
    {
        let ghost before = *self;
        self.bits = self.bits | other.bits;
        proof {
            assert forall|c: ConfigInputEvent| #[trigger]
                self.has(c) <==> before.has(c) || other.has(c) by {
                lemma_bits(before.bits, other.bits, c, c);
            }
            assert(self.classes() =~= before.classes().union(other.classes()));
        }
    }

    /// Takes every class of another set out.
    pub fn remove(&mut self, other: EventFlags)
        ensures
            final(self).classes() == old(self).classes().difference(other.classes()),
    {
        let ghost before = *self;
        self.bits = self.bits & !other.bits;
        proof {
            assert forall|c: ConfigInputEvent| #[trigger]
                self.has(c) <==> before.has(c) && !other.has(c) by {
                lemma_bits(before.bits, other.bits, c, c);
            }
            assert(self.classes() =~= before.classes().difference(other.classes()));
        }
    }

    /// The set of one class.
    pub fn only(class: ConfigInputEvent) -> (flags: EventFlags)
        ensures
            flags.classes() == Set::<ConfigInputEvent>::empty().insert(class),
    {
        let flags = EventFlags { bits: class.bits() };
        proof {
            assert forall|c: ConfigInputEvent| #[trigger] flags.has(c) <==> c == class by {
                lemma_bits(0, 0, c, class);
            }
            assert(flags.classes() =~= Set::<ConfigInputEvent>::empty().insert(class));
        }
        flags
    }

    /// The set of the listed classes.
    pub fn from_classes(classes: &Vec<ConfigInputEvent>) -> (flags: EventFlags)
        ensures
            flags.classes() == classes@.to_set(),
    {
        let mut flags = EventFlags::empty();
        proof {
            assert(classes@.take(0).to_set() =~= Set::<ConfigInputEvent>::empty());
        }
        for i in 0..classes.len()
            invariant
                flags.classes() == classes@.take(i as int).to_set(),
        {
            flags.insert(EventFlags::only(classes[i]));
            proof {
                lemma_set_of_one_more(classes@, i as int);
            }
        }
        proof {
            assert(classes@.take(classes@.len() as int) =~= classes@);
        }
        flags
    }
}

proof fn lemma_set_of_one_more(classes: Seq<ConfigInputEvent>, i: int)
    requires
        0 <= i < classes.len(),
    ensures
        classes.take(i + 1).to_set() == classes.take(i).to_set().union(
            Set::<ConfigInputEvent>::empty().insert(classes[i]),
        ),
{
    let shorter = classes.take(i);
    let longer = classes.take(i + 1);
    let union = shorter.to_set().union(Set::<ConfigInputEvent>::empty().insert(classes[i]));
    assert forall|c: ConfigInputEvent| longer.to_set().contains(c) <==> union.contains(c) by {
        if longer.contains(c) {
            let k = choose|k: int| 0 <= k < longer.len() && longer[k] == c;
            assert(k < i ==> shorter[k] == c);
        }
        if shorter.contains(c) {
            let k = choose|k: int| 0 <= k < shorter.len() && shorter[k] == c;
            assert(longer[k] == c);
        }
        if c == classes[i] {
            assert(longer[i] == c);
        }
    }
    assert(longer.to_set() =~= union);
}

/// Sets that hold the same classes are the same set.
pub proof fn flags_are_their_classes(a: EventFlags, b: EventFlags)
    requires
        a.classes() == b.classes(),
    ensures
        a == b,
{
    let x = a.bits;
    let y = b.bits;
    assert forall|c: ConfigInputEvent| a.has(c) == b.has(c) by {
        assert(a.classes().contains(c) == a.has(c));
        assert(b.classes().contains(c) == b.has(c));
    }
    assert(a.has(ConfigInputEvent::Key) == b.has(ConfigInputEvent::Key));
    assert(a.has(ConfigInputEvent::Button) == b.has(ConfigInputEvent::Button));
    assert(a.has(ConfigInputEvent::Relative) == b.has(ConfigInputEvent::Relative));
    assert(a.has(ConfigInputEvent::Absolute) == b.has(ConfigInputEvent::Absolute));
    assert(a.has(ConfigInputEvent::Misc) == b.has(ConfigInputEvent::Misc));
    assert(a.has(ConfigInputEvent::Switch) == b.has(ConfigInputEvent::Switch));
    assert(a.has(ConfigInputEvent::Led) == b.has(ConfigInputEvent::Led));
    assert(a.has(ConfigInputEvent::Sound) == b.has(ConfigInputEvent::Sound));
    assert(x == y) by (bit_vector)
        requires
            x & 1 == 1 <==> y & 1 == 1,
            x & 2 == 2 <==> y & 2 == 2,
            x & 4 == 4 <==> y & 4 == 4,
            x & 8 == 8 <==> y & 8 == 8,
            x & 16 == 16 <==> y & 16 == 16,
            x & 32 == 32 <==> y & 32 == 32,
            x & 64 == 64 <==> y & 64 == 64,
            x & 128 == 128 <==> y & 128 == 128,
    ;
}

/// The classes of events that do not pass.
#[derive(Debug, Clone, Copy)]
pub struct InputEventFilter {
    filter: EventFlags,
}

impl InputEventFilter {
    /// The flags of the classes that are held back.
    pub closed spec fn held(self) -> EventFlags {
        self.filter
    }

    /// Whether an event passes: its class is not held back, or it has none.
    pub open spec fn passes(self, e: InputEvent) -> bool {
        match class_of(e) {
            Some(class) => !self.held().classes().contains(class),
            None => true,
        }
    }

    /// Holds back the listed classes.
    pub fn new(filter: &Vec<ConfigInputEvent>) -> (r: InputEventFilter)
        ensures
            r.held().classes() == filter@.to_set(),
    {
        InputEventFilter { filter: EventFlags::from_classes(filter) }
    }

    /// Holds nothing back.
    pub fn empty() -> (r: InputEventFilter)
        ensures
            r.held().classes() == Set::<ConfigInputEvent>::empty(),
    {
        InputEventFilter { filter: EventFlags::empty() }
    }

    pub fn filter(&self) -> (flags: EventFlags)
        ensures
            flags == self.held(),
    {
        self.filter
    }

    pub fn filter_set(&mut self, value: EventFlags)
        ensures
            final(self).held() == value,
    {
        self.filter = value;
    }

    /// Replaces the classes that are held back by what a function makes of
    /// them.
    pub fn filter_modify<F: FnOnce(EventFlags) -> EventFlags>(&mut self, f: F)
        requires
            f.requires((old(self).held(),)),
        ensures
            f.ensures((old(self).held(),), final(self).held()),
    {
        let filter = self.filter();
        self.filter_set(f(filter));
    }

    pub fn filter_event(&self, e: &InputEvent) -> (pass: bool)
        ensures
            pass == self.passes(*e),
    {
        match ConfigInputEvent::from_event(e) {
            Some(class) => !self.filter().contains(class),
            None => true,
        }
    }

    /// Holds back the listed classes too.
    pub fn set_filter(&mut self, filter: &Vec<ConfigInputEvent>)
        ensures
            final(self).held().classes() == old(self).held().classes().union(filter@.to_set()),
    {
        let mut flags = self.filter();
        flags.insert(EventFlags::from_classes(filter));
        self.filter_set(flags);
    }

    /// Lets the listed classes pass again.
    pub fn unset_filter(&mut self, filter: &Vec<ConfigInputEvent>)
        ensures
            final(self).held().classes() == old(self).held().classes().difference(filter@.to_set()),
    {
        let mut flags = self.filter();
        flags.remove(EventFlags::from_classes(filter));
        self.filter_set(flags);
    }
}

/// Letting classes pass again undoes holding them back, where none of them was
/// held back before.
pub proof fn unset_undoes_set(
    before: InputEventFilter,
    between: InputEventFilter,
    after: InputEventFilter,
    classes: Seq<ConfigInputEvent>,
)
    requires
        before.held().classes().disjoint(classes.to_set()),
        between.held().classes() == before.held().classes().union(classes.to_set()),
        after.held().classes() == between.held().classes().difference(classes.to_set()),
    ensures
        after == before,
{
    assert(after.held().classes() =~= before.held().classes());
    flags_are_their_classes(after.held(), before.held());
}

/// An event is held back exactly where its class is among those that are. Events
/// that end a group, and those of kinds that have no class, always pass.
pub proof fn events_are_held_back_by_class(
    filter: InputEventFilter,
    e: InputEvent,
    pass: bool,
    class: Option<ConfigInputEvent>,
)
    requires
        call_ensures(InputEventFilter::filter_event, (&filter, &e), pass),
        call_ensures(ConfigInputEvent::from_event, (&e,), class),
    ensures
        !pass <==> class is Some && filter.held().classes().contains(class->0),
        e.kind is Synchronize ==> pass,
        e.kind is Key && e.code < 0x100 ==> pass == !filter.held().classes().contains(
            ConfigInputEvent::Key,
        ),
        e.kind is Key && 0x100 <= e.code < 0x160 ==> pass == !filter.held().classes().contains(
            ConfigInputEvent::Button,
        ),
{
}

/// Holding back classes adds them to those that are held back, and letting them
/// pass takes them out; whatever is not among them is not touched.
pub proof fn filters_are_set_and_unset(
    before: InputEventFilter,
    classes: Vec<ConfigInputEvent>,
    set: InputEventFilter,
    unset: InputEventFilter,
    made: InputEventFilter,
    empty: InputEventFilter,
    class: ConfigInputEvent,
)
    requires
        exists|this: &mut InputEventFilter, r: ()| #[trigger]
            call_ensures(InputEventFilter::set_filter, (this, &classes), r) && *this == before
                && *final(this) == set,
        exists|this: &mut InputEventFilter, r: ()| #[trigger]
            call_ensures(InputEventFilter::unset_filter, (this, &classes), r) && *this == before
                && *final(this) == unset,
        call_ensures(InputEventFilter::new, (&classes,), made),
        call_ensures(InputEventFilter::empty, (), empty),
    ensures
        ({
            let listed = exists|i: int| 0 <= i < classes@.len() && #[trigger] classes@[i] == class;
            let held = before.held().classes().contains(class);
            &&& set.held().classes().contains(class) <==> held || listed
            &&& unset.held().classes().contains(class) <==> held && !listed
            &&& made.held().classes().contains(class) <==> listed
            &&& !empty.held().classes().contains(class)
        }),
{
    assert(classes@.to_set().contains(class) <==> classes@.contains(class));
}

/// A set of classes has what was put in, and not what was taken out.
pub proof fn flags_are_sets(
    before: EventFlags,
    other: EventFlags,
    added: EventFlags,
    removed: EventFlags,
    one: ConfigInputEvent,
    only: EventFlags,
    class: ConfigInputEvent,
    has: bool,
)
    requires
        exists|this: &mut EventFlags, r: ()| #[trigger]
            call_ensures(EventFlags::insert, (this, other), r) && *this == before && *final(this)
                == added,
        exists|this: &mut EventFlags, r: ()| #[trigger]
            call_ensures(EventFlags::remove, (this, other), r) && *this == before && *final(this)
                == removed,
        call_ensures(EventFlags::only, (one,), only),
        call_ensures(EventFlags::contains, (&before, class), has),
    ensures
        has == before.classes().contains(class),
        added.classes().contains(class) <==> has || other.classes().contains(class),
        removed.classes().contains(class) <==> has && !other.classes().contains(class),
        only.classes().contains(class) <==> class == one,
{
}

/// Every class has a bit of its own.
pub proof fn classes_have_bits_of_their_own(
    a: ConfigInputEvent,
    b: ConfigInputEvent,
    bit_a: u8,
    bit_b: u8,
)
    requires
        call_ensures(ConfigInputEvent::bits, (&a,), bit_a),
        call_ensures(ConfigInputEvent::bits, (&b,), bit_b),
    ensures
        bit_a & bit_b != 0 <==> a == b,
{
    assert(bit_a & bit_b != 0 <==> bit_a == bit_b) by (bit_vector)
        requires
            bit_a == 1 || bit_a == 2 || bit_a == 4 || bit_a == 8 || bit_a == 16 || bit_a == 32
                || bit_a == 64 || bit_a == 128,
            bit_b == 1 || bit_b == 2 || bit_b == 4 || bit_b == 8 || bit_b == 16 || bit_b == 32
                || bit_b == 64 || bit_b == 128,
    ;
}

} // verus!
