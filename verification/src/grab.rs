//! Kernel devices that are grabbed.

use crate::config::ConfigInputEvent;
use crate::filter::InputEventFilter;
use crate::input::InputEvent;
use crate::uinput::InputId;
use std::collections::HashMap;
use vstd::prelude::*;
use vstd::std_specs::hash::group_hash_axioms;
use vstd::std_specs::iter::IteratorSpec;

verus! {

/// Devices by the numbers of their identities.
#[derive(Debug)]
pub struct GrabEvdev<D> {
    pub devices: HashMap<u64, D>,
    pub filter: InputEventFilter,
}

/// The number that stands for an identity.
pub open spec fn identity_number(id: InputId) -> u64 {
    (((id.bustype * 0x1_0000 + id.vendor) * 0x1_0000 + id.product) * 0x1_0000 + id.version) as u64
}

fn number_of_identity(id: &InputId) -> (number: u64)
    ensures
        number == identity_number(*id),
{
    ((id.bustype as u64 * 0x1_0000 + id.vendor as u64) * 0x1_0000 + id.product as u64) * 0x1_0000
        + id.version as u64
}

/// No two identities have one number.
pub proof fn identity_numbers_are_distinct(a: InputId, b: InputId)
    requires
        identity_number(a) == identity_number(b),
    ensures
        a == b,
{
}

/// Devices by their identities. Of those with one identity the last one counts.
pub open spec fn devices_by_identity<D>(devices: Seq<(InputId, D)>) -> Map<u64, D>
    decreases devices.len(),
{
    if devices.len() == 0 {
        Map::empty()
    } else {
        devices_by_identity(devices.drop_last()).insert(
            identity_number(devices.last().0),
            devices.last().1,
        )
    }
}

/// Whether some values are those of a map, each one once for every key.
pub open spec fn are_values<D>(values: Seq<&D>, map: Map<u64, D>) -> bool {
    exists|keys: Seq<u64>|
        {
            &&& keys.no_duplicates()
            &&& #[trigger] keys.to_set() == map.dom()
            &&& keys.len() == values.len()
            &&& forall|i: int|
                0 <= i < keys.len() ==> *(#[trigger] values[i]) == map[keys[i]]
        }
}

impl<D> GrabEvdev<D> {
    /// Takes devices that were opened, and holds back some classes of their
    /// events.
    pub fn new(devices: Vec<(InputId, D)>, filter: &Vec<ConfigInputEvent>) -> (grab: GrabEvdev<D>)
        ensures
            grab.devices@ == devices_by_identity(devices@),
            grab.filter.held().classes() == filter@.to_set(),
    {
        broadcast use group_hash_axioms;

        let ghost all = devices@;
        let mut own: HashMap<u64, D> = HashMap::new();
        for device in iter: devices
            invariant
                iter.seq() == all,
                own@ == devices_by_identity(all.take(iter.index() as int)),
        {
            broadcast use group_hash_axioms;

            assert(all.take(iter.index() + 1).drop_last() =~= all.take(iter.index() as int));
            own.insert(number_of_identity(&device.0), device.1);
        }
        assert(all.take(all.len() as int) =~= all);
        GrabEvdev { devices: own, filter: InputEventFilter::new(filter) }
    }

    /// Whether an event of a device is forwarded.
    pub fn forwards(&self, e: &InputEvent) -> (forward: bool)
        ensures
            forward == self.filter.passes(*e),
    {
        self.filter.filter_event(e)
    }

    /// The devices, in no particular order.
    pub fn evdevs(&self) -> (devices: Vec<&D>)
        ensures
            are_values(devices@, self.devices@),
    {
        broadcast use group_hash_axioms;

        let mut devices: Vec<&D> = Vec::new();
        let iter = self.devices.iter();
        let ghost entries = iter.remaining();
        for entry in it: iter
            invariant
                it.seq() == entries,
                devices@.len() == it.index(),
                forall|i: int| 0 <= i < devices@.len() ==> #[trigger] devices@[i] == entries[i].1,
        {
            devices.push(entry.1);
        }
        proof {
            let keys = entries.map_values(|entry: (&u64, &D)| *entry.0);
            let map = self.devices@;
            assert forall|i: int| 0 <= i < keys.len() implies *(#[trigger] devices@[i])
                == map[keys[i]] && map.contains_key(keys[i]) by {
                assert(map.contains_key(*entries[i].0));
            }
            assert forall|i: int, j: int| 0 <= i < j < keys.len() implies keys[i] != keys[j] by {
                assert(map[*entries[i].0] == *entries[i].1 && map[*entries[j].0] == *entries[j].1);
                assert(entries[i] != entries[j]);
            }
            assert forall|key: u64| map.contains_key(key) implies keys.contains(key) by {
                assert(entries.contains((&key, &map[key])));
                assert(keys[entries.index_of((&key, &map[key]))] == key);
            }
            assert(keys.to_set() =~= map.dom());
        }
        devices
    }
}

/// Each device is grabbed once under its identity, the last one of those that share
/// an identity, and their events are forwarded unless they are of a class that is
/// held back.
pub proof fn devices_are_grabbed_by_identity<D>(
    devices: Vec<(InputId, D)>,
    filter: Vec<ConfigInputEvent>,
    grab: GrabEvdev<D>,
    id: InputId,
    e: InputEvent,
    forward: bool,
    class: Option<ConfigInputEvent>,
)
    requires
        call_ensures(GrabEvdev::<D>::new, (devices, &filter), grab),
        call_ensures(GrabEvdev::<D>::forwards, (&grab, &e), forward),
        call_ensures(ConfigInputEvent::from_event, (&e,), class),
    ensures
        grab.devices@.contains_key(identity_number(id)) <==> exists|i: int|
            0 <= i < devices@.len() && (#[trigger] devices@[i]).0 == id,
        grab.devices@.contains_key(identity_number(id)) ==> exists|i: int|
            {
                &&& 0 <= i < devices@.len()
                &&& (#[trigger] devices@[i]).0 == id
                &&& devices@[i].1 == grab.devices@[identity_number(id)]
                &&& forall|j: int| i < j < devices@.len() ==> (#[trigger] devices@[j]).0 != id
            },
        !forward <==> class is Some && filter@.contains(class->0),
{
    lemma_by_identity(devices@, id);
}

proof fn lemma_by_identity<D>(devices: Seq<(InputId, D)>, id: InputId)
    ensures
        devices_by_identity(devices).contains_key(identity_number(id)) <==> exists|i: int|
            0 <= i < devices.len() && (#[trigger] devices[i]).0 == id,
        devices_by_identity(devices).contains_key(identity_number(id)) ==> exists|i: int|
            {
                &&& 0 <= i < devices.len()
                &&& (#[trigger] devices[i]).0 == id
                &&& devices[i].1 == devices_by_identity(devices)[identity_number(id)]
                &&& forall|j: int| i < j < devices.len() ==> (#[trigger] devices[j]).0 != id
            },
    decreases devices.len(),
{
    if devices.len() > 0 {
        let fewer = devices.drop_last();
        let last = devices.last().0;
        lemma_by_identity(fewer, id);
        if identity_number(last) == identity_number(id) {
            identity_numbers_are_distinct(last, id);
            assert(devices[devices.len() - 1].0 == id);
        } else if devices_by_identity(fewer).contains_key(identity_number(id)) {
            let i = choose|i: int|
                {
                    &&& 0 <= i < fewer.len()
                    &&& (#[trigger] fewer[i]).0 == id
                    &&& fewer[i].1 == devices_by_identity(fewer)[identity_number(id)]
                    &&& forall|j: int| i < j < fewer.len() ==> (#[trigger] fewer[j]).0 != id
                };
            assert(devices[i] == fewer[i]);
            assert forall|j: int| i < j < devices.len() implies (#[trigger] devices[j]).0
                != id by {
                if j < fewer.len() {
                    assert(fewer[j] == devices[j]);
                }
            }
        } else {
            assert forall|i: int| 0 <= i < devices.len() implies (#[trigger] devices[i]).0
                != id by {
                if i < fewer.len() {
                    assert(fewer[i] == devices[i]);
                }
            }
        }
    }
}

} // verus!
