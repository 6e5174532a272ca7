//! The input devices of the X server, and which of them to grab.

use super::protocol::{
    DeviceClass, DeviceMask, DeviceType, Valuator, XIDeviceInfo, XIEventMask, ALL_DEVICES,
    ALL_MASTER_DEVICES,
};
use super::xinput::{make_valuator_key, valuator_key};
use crate::config::{ConfigInputDevice, ConfigInputDeviceKind};
use std::collections::BTreeMap;
use vstd::prelude::*;
use vstd::std_specs::btree::{group_btree_axioms, increasing_seq};
use vstd::std_specs::cmp::OrdSpec;
use vstd::std_specs::iter::IteratorSpec;
use vstd::utf8::encode_utf8;

verus! {

/// Devices by their ids. Of those with one id the last one counts.
pub open spec fn devices_by_id(infos: Seq<XIDeviceInfo>) -> Map<u16, XIDeviceInfo>
    decreases infos.len(),
{
    if infos.len() == 0 {
        Map::empty()
    } else {
        devices_by_id(infos.drop_last()).insert(infos.last().deviceid, infos.last())
    }
}

/// The devices of a reply by their ids.
pub(crate) fn collect_devices(infos: Vec<XIDeviceInfo>) -> (devices: BTreeMap<u16, XIDeviceInfo>)
    ensures
        devices@ == devices_by_id(infos@),
{
    broadcast use group_btree_axioms;

    let ghost all = infos@;
    let mut devices: BTreeMap<u16, XIDeviceInfo> = BTreeMap::new();
    for info in iter: infos
        invariant
            iter.seq() == all,
            devices@ == devices_by_id(all.take(iter.index() as int)),
    {
        broadcast use group_btree_axioms;

        assert(all.take(iter.index() + 1).drop_last() =~= all.take(iter.index() as int));
        devices.insert(info.deviceid, info);
    }
    assert(all.take(all.len() as int) =~= all);
    devices
}

proof fn lemma_increasing(ids: Seq<u16>)
    requires
        increasing_seq(ids),
    ensures
        forall|i: int, j: int| 0 <= i < j < ids.len() ==> ids[i] < ids[j],
{
    broadcast use group_btree_axioms;

    assert forall|i: int, j: int| 0 <= i < j < ids.len() implies ids[i] < ids[j] by {
        assert(ids[i].cmp_spec(&ids[j]) is Less);
    }
}

/// The ids of some devices, in ascending order.
fn device_ids(devices: &BTreeMap<u16, XIDeviceInfo>) -> (ids: Vec<u16>)
    ensures
        forall|i: int, j: int| 0 <= i < j < ids@.len() ==> ids@[i] < ids@[j],
        forall|id: u16| #[trigger] ids@.contains(id) <==> devices@.contains_key(id),
{
    broadcast use group_btree_axioms;

    let mut ids: Vec<u16> = Vec::new();
    let iter = devices.iter();
    let ghost entries = iter.remaining();
    let ghost keys = entries.map_values(|entry: (&u16, &XIDeviceInfo)| *entry.0);
    for entry in it: iter
        invariant
            it.seq() == entries,
            keys == entries.map_values(|entry: (&u16, &XIDeviceInfo)| *entry.0),
            ids@ == keys.take(it.index() as int),
    {
        ids.push(*entry.0);
        assert(keys.take(it.index() + 1) =~= keys.take(it.index() as int).push(*entry.0));
    }
    assert(keys.take(keys.len() as int) =~= keys);
    proof {
        lemma_increasing(keys);
    }
    assert forall|id: u16| #[trigger] ids@.contains(id) <==> devices@.contains_key(id) by {
        if ids@.contains(id) {
            let i = choose|i: int| 0 <= i < ids@.len() && ids@[i] == id;
            assert(devices@.contains_key(*entries[i].0));
        }
        if devices@.contains_key(id) {
            assert(entries.contains((&id, &devices@[id])));
            let i = entries.index_of((&id, &devices@[id]));
            assert(keys[i] == id);
        }
    }
    ids
}

/// The axis with a number among some classes of a device. Of those with one
/// number the last one counts.
pub open spec fn last_valuator(classes: Seq<DeviceClass>, number: u16) -> Option<Valuator>
    decreases classes.len(),
{
    if classes.len() == 0 {
        None
    } else {
        match classes.last() {
            DeviceClass::Valuator(val) if val.number == number => Some(val),
            _ => last_valuator(classes.drop_last(), number),
        }
    }
}

/// The axis of some devices that is found at a place.
pub open spec fn valuator_at(devices: Map<u16, XIDeviceInfo>, key: u32) -> Option<Valuator> {
    let deviceid = (key / 0x1_0000) as u16;
    if devices.contains_key(deviceid) {
        last_valuator(devices[deviceid].classes@, (key % 0x1_0000) as u16)
    } else {
        None
    }
}

/// The axes of some devices.
pub open spec fn valuators_of(devices: Map<u16, XIDeviceInfo>) -> Map<u32, Valuator> {
    Map::new(
        |key: u32| valuator_at(devices, key) is Some,
        |key: u32| valuator_at(devices, key)->0,
    )
}

/// Whether the axes among some classes of a device were put into a map that had
/// none of this device.
spec fn adds_valuators(
    before: Map<u32, Valuator>,
    deviceid: u16,
    classes: Seq<DeviceClass>,
    after: Map<u32, Valuator>,
) -> bool {
    forall|key: u32|
        #![trigger after.contains_key(key)]
        #![trigger after[key]]
        if key / 0x1_0000 == deviceid {
            &&& after.contains_key(key) <==> last_valuator(
                classes,
                (key % 0x1_0000) as u16,
            ) is Some
            &&& after.contains_key(key) ==> Some(after[key]) == last_valuator(
                classes,
                (key % 0x1_0000) as u16,
            )
        } else {
            after.contains_key(key) == before.contains_key(key) && after[key] == before[key]
        }
}

pub(crate) fn collect_valuators(devices: &BTreeMap<u16, XIDeviceInfo>) -> (valuators: BTreeMap<
    u32,
    Valuator,
>)
    ensures
        valuators@ == valuators_of(devices@),
{
    broadcast use group_btree_axioms;

    let ids = device_ids(devices);
    let mut valuators: BTreeMap<u32, Valuator> = BTreeMap::new();
    for i in 0..ids.len()
        invariant
            forall|j: int, k: int| 0 <= j < k < ids@.len() ==> ids@[j] < ids@[k],
            forall|id: u16| #[trigger] ids@.contains(id) <==> devices@.contains_key(id),
            forall|key: u32| #[trigger]
                valuators@.contains_key(key) <==> ids@.take(i as int).contains(
                    (key / 0x1_0000) as u16,
                ) && valuator_at(devices@, key) is Some,
            forall|key: u32| #[trigger]
                valuators@.contains_key(key) ==> Some(valuators@[key]) == valuator_at(
                    devices@,
                    key,
                ),
    {
        broadcast use group_btree_axioms;

        let id = ids[i];
        assert(ids@.contains(id));
        let ghost before = valuators@;
        if let Some(device) = devices.get(&id) {
            let ghost classes = device.classes@;
            assert(classes.take(0) =~= Seq::<DeviceClass>::empty());
            for j in 0..device.classes.len()
                invariant
                    classes == device.classes@,
                    adds_valuators(before, id, classes.take(j as int), valuators@),
            {
                broadcast use group_btree_axioms;

                if let DeviceClass::Valuator(val) = device.classes[j] {
                    valuators.insert(make_valuator_key(id, val.number), val);
                }
                assert(classes.take(j + 1).drop_last() =~= classes.take(j as int));
            }
            assert(classes.take(classes.len() as int) =~= classes);
        }
        proof {
            let seen = ids@.take(i as int);
            assert(ids@.take(i + 1) =~= seen.push(id));
            assert forall|other: u16| #[trigger]
                seen.push(id).contains(other) <==> seen.contains(other) || other == id by {
                if seen.contains(other) {
                    assert(seen.push(id)[seen.index_of(other)] == other);
                }
                assert(seen.push(id)[i as int] == id);
            }
        }
    }
    assert(ids@.take(ids@.len() as int) =~= ids@);
    assert(valuators@ =~= valuators_of(devices@));
    valuators
}

/// The type that a device of a kind has.
pub open spec fn device_type(kind: ConfigInputDeviceKind, master: bool) -> DeviceType {
    match kind {
        ConfigInputDeviceKind::Keyboard => if master {
            DeviceType::MasterKeyboard
        } else {
            DeviceType::SlaveKeyboard
        },
        ConfigInputDeviceKind::Mouse | ConfigInputDeviceKind::Tablet => if master {
            DeviceType::MasterPointer
        } else {
            DeviceType::SlavePointer
        },
    }
}

/// Whether a device has the name and the kind that are asked for.
pub open spec fn fits(dev: XIDeviceInfo, spec_: ConfigInputDevice) -> bool {
    &&& spec_.name@.len() == 0 || encode_utf8(spec_.name@) == dev.name@
    &&& spec_.kind matches Some(kind) ==> device_type(kind, spec_.master) == dev.type_
}

fn same_bytes(a: &[u8], b: &Vec<u8>) -> (same: bool)
    ensures
        same == (a@ == b@),
{
    if a.len() != b.len() {
        return false;
    }
    for i in 0..a.len()
        invariant
            a@.len() == b@.len(),
            forall|j: int| 0 <= j < i ==> a@[j] == b@[j],
    {
        if a[i] != b[i] {
            return false;
        }
    }
    assert(a@ =~= b@);
    true
}

fn device_matches(dev: &XIDeviceInfo, spec_: &ConfigInputDevice) -> (matches: bool)
    ensures
        matches == fits(*dev, *spec_),
{
    if spec_.name.as_str().unicode_len() != 0 && !same_bytes(
        spec_.name.as_str().as_bytes(),
        &dev.name,
    ) {
        return false;
    }
    if let Some(kind) = spec_.kind {
        let type_ = match kind {
            ConfigInputDeviceKind::Keyboard => if spec_.master {
                DeviceType::MasterKeyboard
            } else {
                DeviceType::SlaveKeyboard
            },
            ConfigInputDeviceKind::Mouse | ConfigInputDeviceKind::Tablet => if spec_.master {
                DeviceType::MasterPointer
            } else {
                DeviceType::SlavePointer
            },
        };
        if type_ != dev.type_ {
            return false;
        }
    }
    true
}

/// Whether a device fits, and none with a lower id does.
pub open spec fn is_first_fit(
    devices: Map<u16, XIDeviceInfo>,
    spec_: ConfigInputDevice,
    id: u16,
) -> bool {
    &&& devices.contains_key(id) && fits(devices[id], spec_)
    &&& forall|other: u16| #[trigger]
        devices.contains_key(other) && other < id ==> !fits(devices[other], spec_)
}

/// The lowest id of a device that fits.
pub open spec fn first_fit(devices: Map<u16, XIDeviceInfo>, spec_: ConfigInputDevice) -> Option<
    u16,
> {
    if exists|id: u16| is_first_fit(devices, spec_, id) {
        Some(choose|id: u16| is_first_fit(devices, spec_, id))
    } else {
        None
    }
}

proof fn lemma_first_fit(devices: Map<u16, XIDeviceInfo>, spec_: ConfigInputDevice, id: u16)
    requires
        is_first_fit(devices, spec_, id),
    ensures
        first_fit(devices, spec_) == Some(id),
{
    let first = choose|id: u16| is_first_fit(devices, spec_, id);
    assert(is_first_fit(devices, spec_, first));
}

/// The id that stands for what is asked for: the one given, that of all
/// devices, or the lowest of a device that fits.
pub open spec fn target_of(devices: Map<u16, XIDeviceInfo>, spec_: ConfigInputDevice) -> Option<
    u16,
> {
    match spec_.id {
        Some(id) => Some(id),
        None => if spec_.fits_all() {
            Some(
                if spec_.master {
                    ALL_MASTER_DEVICES
                } else {
                    ALL_DEVICES
                },
            )
        } else {
            first_fit(devices, spec_)
        },
    }
}

/// The events to ask for, or to give up, of each device that is asked for and
/// found.
pub open spec fn masks_of(
    specs: Seq<ConfigInputDevice>,
    devices: Map<u16, XIDeviceInfo>,
    grab: bool,
) -> Seq<DeviceMask>
    decreases specs.len(),
{
    if specs.len() == 0 {
        Seq::empty()
    } else {
        let before = masks_of(specs.drop_last(), devices, grab);
        match target_of(devices, specs.last()) {
            Some(deviceid) => before.push(
                DeviceMask {
                    deviceid,
                    mask: if grab {
                        XIEventMask::RawMotion
                    } else {
                        XIEventMask::Nothing
                    },
                },
            ),
            None => before,
        }
    }
}

pub(crate) fn find_target(
    devices: &BTreeMap<u16, XIDeviceInfo>,
    spec_: &ConfigInputDevice,
) -> (deviceid: Option<u16>)
    ensures
        deviceid == target_of(devices@, *spec_),
{
    if let Some(id) = spec_.id {
        return Some(id);
    }
    if spec_.is_any() {
        return Some(
            if spec_.master {
                ALL_MASTER_DEVICES
            } else {
                ALL_DEVICES
            },
        );
    }
    let ids = device_ids(devices);
    for i in 0..ids.len()
        invariant
            forall|j: int, k: int| 0 <= j < k < ids@.len() ==> ids@[j] < ids@[k],
            forall|id: u16| #[trigger] ids@.contains(id) <==> devices@.contains_key(id),
            forall|j: int| 0 <= j < i ==> !fits(devices@[#[trigger] ids@[j]], *spec_),
            target_of(devices@, *spec_) == first_fit(devices@, *spec_),
    {
        broadcast use group_btree_axioms;

        let id = ids[i];
        assert(ids@.contains(id));
        if let Some(device) = devices.get(&id) {
            if device_matches(device, spec_) {
                proof {
                    assert forall|other: u16| #[trigger]
                        devices@.contains_key(other) && other < id implies !fits(
                        devices@[other],
                        *spec_,
                    ) by {
                        assert(ids@.contains(other));
                    }
                    lemma_first_fit(devices@, *spec_, id);
                }
                return Some(id);
            }
        }
    }
    assert forall|id: u16| !is_first_fit(devices@, *spec_, id) by {
        if devices@.contains_key(id) {
            assert(ids@.contains(id));
        }
    }
    None
}

/// What a grab asks for, the end of the grab gives up: both speak of the same
/// devices in the same order.
pub proof fn ungrab_gives_up_the_same(
    specs: Seq<ConfigInputDevice>,
    devices: Map<u16, XIDeviceInfo>,
)
    ensures
        masks_of(specs, devices, true).map_values(|m: DeviceMask| m.deviceid) == masks_of(
            specs,
            devices,
            false,
        ).map_values(|m: DeviceMask| m.deviceid),
    decreases specs.len(),
{
    let id = |m: DeviceMask| m.deviceid;
    if specs.len() == 0 {
        assert(masks_of(specs, devices, true).map_values(id) =~= masks_of(
            specs,
            devices,
            false,
        ).map_values(id));
    } else {
        let fewer = specs.drop_last();
        ungrab_gives_up_the_same(fewer, devices);
        let grab = masks_of(fewer, devices, true);
        let ungrab = masks_of(fewer, devices, false);
        if let Some(deviceid) = target_of(devices, specs.last()) {
            assert(masks_of(specs, devices, true).map_values(id) =~= grab.map_values(id).push(
                deviceid,
            ));
            assert(masks_of(specs, devices, false).map_values(id) =~= ungrab.map_values(id).push(
                deviceid,
            ));
        }
    }
}

/// The ids that devices to grab stand for, in order, but for those that no device
/// fits.
pub open spec fn targets_of(
    specs: Seq<ConfigInputDevice>,
    devices: Map<u16, XIDeviceInfo>,
) -> Seq<u16>
    decreases specs.len(),
{
    if specs.len() == 0 {
        Seq::empty()
    } else {
        let before = targets_of(specs.drop_last(), devices);
        match target_of(devices, specs.last()) {
            Some(deviceid) => before.push(deviceid),
            None => before,
        }
    }
}

pub(crate) proof fn lemma_masks(
    specs: Seq<ConfigInputDevice>,
    devices: Map<u16, XIDeviceInfo>,
    grab: bool,
)
    ensures
        masks_of(specs, devices, grab).map_values(|m: DeviceMask| m.deviceid) == targets_of(
            specs,
            devices,
        ),
        forall|i: int|
            0 <= i < masks_of(specs, devices, grab).len() ==> (#[trigger] masks_of(
                specs,
                devices,
                grab,
            )[i]).mask == if grab {
                XIEventMask::RawMotion
            } else {
                XIEventMask::Nothing
            },
    decreases specs.len(),
{
    let id = |m: DeviceMask| m.deviceid;
    let all = masks_of(specs, devices, grab);
    if specs.len() == 0 {
        assert(all.map_values(id) =~= targets_of(specs, devices));
    } else {
        let fewer = specs.drop_last();
        lemma_masks(fewer, devices, grab);
        assert(all.map_values(id) =~= targets_of(specs, devices));
    }
}

pub(crate) proof fn lemma_devices_by_id(infos: Seq<XIDeviceInfo>, id: u16)
    ensures
        devices_by_id(infos).contains_key(id) <==> exists|i: int|
            0 <= i < infos.len() && (#[trigger] infos[i]).deviceid == id,
        devices_by_id(infos).contains_key(id) ==> exists|i: int|
            {
                &&& 0 <= i < infos.len()
                &&& #[trigger] infos[i] == devices_by_id(infos)[id]
                &&& infos[i].deviceid == id
                &&& forall|j: int| i < j < infos.len() ==> (#[trigger] infos[j]).deviceid != id
            },
    decreases infos.len(),
{
    if infos.len() > 0 {
        let fewer = infos.drop_last();
        lemma_devices_by_id(fewer, id);
        if infos.last().deviceid == id {
            assert(infos[infos.len() - 1].deviceid == id);
        } else if devices_by_id(fewer).contains_key(id) {
            let i = choose|i: int|
                {
                    &&& 0 <= i < fewer.len()
                    &&& #[trigger] fewer[i] == devices_by_id(fewer)[id]
                    &&& fewer[i].deviceid == id
                    &&& forall|j: int| i < j < fewer.len() ==> (#[trigger] fewer[j]).deviceid != id
                };
            assert(infos[i] == fewer[i]);
            assert forall|j: int| i < j < infos.len() implies (#[trigger] infos[j]).deviceid
                != id by {
                if j < fewer.len() {
                    assert(fewer[j].deviceid != id);
                }
            }
        } else {
            assert forall|i: int| 0 <= i < infos.len() implies (#[trigger] infos[i]).deviceid
                != id by {
                if i < fewer.len() {
                    assert(fewer[i].deviceid != id);
                }
            }
        }
    }
}

/// A device to grab is the one with its id; without any mark it stands for all
/// devices, or for all masters; otherwise it is the one with the lowest id among
/// those that have its name, where it has one, and are of its kind, where it has
/// one, as a master or as a slave.
pub proof fn devices_to_grab_are_found(
    devices: Map<u16, XIDeviceInfo>,
    spec_: ConfigInputDevice,
    id: u16,
)
    ensures
        ({
            let target = target_of(devices, spec_);
            let any = spec_.id is None && spec_.kind is None && spec_.name@.len() == 0;
            &&& spec_.id is Some ==> target == spec_.id
            &&& any ==> target == Some(
                if spec_.master {
                    1u16
                } else {
                    0u16
                },
            )
            &&& spec_.id is None && !any && target is Some ==> devices.contains_key(target->0)
                && is_wanted(devices[target->0], spec_)
            &&& spec_.id is None && !any && devices.contains_key(id) && is_wanted(
                devices[id],
                spec_,
            ) ==> target is Some && target->0 <= id
        }),
{
    let found = first_fit(devices, spec_);
    if spec_.id is None && !spec_.fits_all() {
        if let Some(first) = found {
            assert(is_first_fit(devices, spec_, first));
        }
        if devices.contains_key(id) && fits(devices[id], spec_) {
            lemma_some_first_fit(devices, spec_, id);
        }
    }
}

/// Whether a device has the name and is of the kind that is asked for.
pub open spec fn is_wanted(device: XIDeviceInfo, spec_: ConfigInputDevice) -> bool {
    &&& spec_.name@.len() > 0 ==> device.name@ == encode_utf8(spec_.name@)
    &&& spec_.kind == Some(ConfigInputDeviceKind::Keyboard) ==> if spec_.master {
        device.type_ is MasterKeyboard
    } else {
        device.type_ is SlaveKeyboard
    }
    &&& spec_.kind == Some(ConfigInputDeviceKind::Mouse) || spec_.kind == Some(
        ConfigInputDeviceKind::Tablet,
    ) ==> if spec_.master {
        device.type_ is MasterPointer
    } else {
        device.type_ is SlavePointer
    }
}

proof fn lemma_some_first_fit(
    devices: Map<u16, XIDeviceInfo>,
    spec_: ConfigInputDevice,
    id: u16,
)
    requires
        devices.contains_key(id),
        fits(devices[id], spec_),
    ensures
        first_fit(devices, spec_) is Some,
        first_fit(devices, spec_)->0 <= id,
    decreases id,
{
    if is_first_fit(devices, spec_, id) {
        lemma_first_fit(devices, spec_, id);
    } else {
        let other = choose|other: u16| #[trigger]
            devices.contains_key(other) && other < id && fits(devices[other], spec_);
        lemma_some_first_fit(devices, spec_, other);
    }
}

/// The axes that are known are those of the devices, each found by its device and
/// its number: the last one that the device lists with this number.
pub proof fn axes_are_known_by_their_numbers(
    devices: Map<u16, XIDeviceInfo>,
    deviceid: u16,
    number: u16,
)
    ensures
        ({
            let key = (deviceid * 0x1_0000 + number) as u32;
            let axes = valuators_of(devices);
            let classes = devices[deviceid].classes@;
            &&& axes.contains_key(key) <==> devices.contains_key(deviceid) && exists|i: int|
                0 <= i < classes.len() && (#[trigger] classes[i] matches DeviceClass::Valuator(own)
                    && own.number == number)
            &&& axes.contains_key(key) ==> exists|i: int|
                {
                    &&& 0 <= i < classes.len()
                    &&& #[trigger] classes[i] == DeviceClass::Valuator(axes[key])
                    &&& axes[key].number == number
                    &&& forall|j: int|
                        i < j < classes.len() ==> (#[trigger] classes[j] matches DeviceClass::Valuator(
                            other,
                        ) ==> other.number != number)
                }
        }),
{
    let key = (deviceid * 0x1_0000 + number) as u32;
    assert((key / 0x1_0000) as u16 == deviceid && (key % 0x1_0000) as u16 == number);
    lemma_last_valuator(devices[deviceid].classes@, number);
}

proof fn lemma_last_valuator(classes: Seq<DeviceClass>, number: u16)
    ensures
        last_valuator(classes, number) is Some <==> exists|i: int|
            0 <= i < classes.len() && (#[trigger] classes[i] matches DeviceClass::Valuator(own)
                && own.number == number),
        last_valuator(classes, number) matches Some(found) ==> exists|i: int|
            {
                &&& 0 <= i < classes.len()
                &&& #[trigger] classes[i] == DeviceClass::Valuator(found)
                &&& found.number == number
                &&& forall|j: int|
                    i < j < classes.len() ==> (#[trigger] classes[j] matches DeviceClass::Valuator(
                        other,
                    ) ==> other.number != number)
            },
    decreases classes.len(),
{
    if classes.len() > 0 {
        let fewer = classes.drop_last();
        lemma_last_valuator(fewer, number);
        let is_last = classes.last() matches DeviceClass::Valuator(own) && own.number == number;
        if is_last {
            assert(classes[classes.len() - 1] == classes.last());
        } else {
            if let Some(found) = last_valuator(fewer, number) {
                let i = choose|i: int|
                    {
                        &&& 0 <= i < fewer.len()
                        &&& #[trigger] fewer[i] == DeviceClass::Valuator(found)
                        &&& found.number == number
                        &&& forall|j: int|
                            i < j < fewer.len() ==> (
                            #[trigger] fewer[j] matches DeviceClass::Valuator(other)
                                ==> other.number != number)
                    };
                assert(classes[i] == fewer[i]);
                assert forall|j: int| i < j < classes.len() implies (
                #[trigger] classes[j] matches DeviceClass::Valuator(other) ==> other.number
                    != number) by {
                    if j < fewer.len() {
                        assert(fewer[j] == classes[j]);
                    }
                }
            } else {
                assert forall|i: int| 0 <= i < classes.len() implies !(
                #[trigger] classes[i] matches DeviceClass::Valuator(own) && own.number
                    == number) by {
                    if i < fewer.len() {
                        assert(fewer[i] == classes[i]);
                    }
                }
            }
        }
    }
}

} // verus!
