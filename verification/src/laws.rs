//! The guarantees the library makes across its functions, stated and
//! proved over the spec model that the executable contracts use.

use vstd::prelude::*;

use crate::device::{
    arch_target, device_of, lemma_device_of_injective, DeviceInfoView, DeviceView, EventView,
};
use crate::parse::{announcements, collect_devices, parse_result};

verus! {

/// Everything a successful resolution guarantees: every announced
/// architecture was recognized, the records are pairwise distinct, a
/// record is present exactly when some announcement yields it, and the
/// count equals the number of distinct announcements.
proof fn lemma_collect_ok_invariants(infos: Seq<DeviceInfoView>)
    requires
        collect_devices(infos) is Ok,
    ensures
        collect_devices(infos) matches Ok(devices) && {
            &&& forall|i: int|
                0 <= i < infos.len() ==> device_of(#[trigger] infos[i]) is Some
            &&& devices.no_duplicates()
            &&& forall|d: DeviceView|
                devices.contains(d) <==> exists|i: int|
                    0 <= i < infos.len() && device_of(#[trigger] infos[i]) == Some(d)
            &&& devices.len() == infos.to_set().len()
        },
    decreases infos.len(),
{
    broadcast use vstd::set::group_set_axioms;
    broadcast use vstd::seq_lib::seq_to_set_is_finite;

    if infos.len() == 0 {
        assert(infos.to_set() =~= Set::<DeviceInfoView>::empty());
    } else {
        let prefix = infos.drop_last();
        let last = infos.last();
        lemma_collect_ok_invariants(prefix);
        let before = collect_devices(prefix)->Ok_0;
        let d = device_of(last)->Some_0;
        let devices = collect_devices(infos)->Ok_0;
        assert(device_of(last) is Some);
        assert forall|i: int| 0 <= i < infos.len() implies device_of(
            #[trigger] infos[i],
        ) is Some by {
            if i < infos.len() - 1 {
                assert(infos[i] == prefix[i]);
            }
        }
        assert(infos.to_set() =~= prefix.to_set().insert(last)) by {
            assert forall|x: DeviceInfoView| #[trigger]
                infos.to_set().contains(x) implies prefix.to_set().insert(last).contains(
                x,
            ) by {
                let i = choose|i: int| 0 <= i < infos.len() && infos[i] == x;
                if i < infos.len() - 1 {
                    assert(prefix[i] == x);
                }
            }
            assert forall|x: DeviceInfoView| prefix.to_set().insert(last).contains(
                x,
            ) implies #[trigger] infos.to_set().contains(x) by {
                if prefix.to_set().contains(x) {
                    let i = choose|i: int| 0 <= i < prefix.len() && prefix[i] == x;
                    assert(infos[i] == x);
                } else {
                    assert(infos[infos.len() - 1] == x);
                }
            }
        }
        assert(prefix.to_set().finite());
        if before.contains(d) {
            // The new announcement repeats an earlier one: the collection
            // and the set of distinct announcements both stay as they are.
            assert(devices == before);
            let i0 = choose|i: int|
                0 <= i < prefix.len() && device_of(#[trigger] prefix[i]) == Some(d);
            lemma_device_of_injective(prefix[i0], last);
            assert(prefix.to_set().contains(last)) by {
                assert(prefix[i0] == last);
            }
            assert(infos.to_set().len() == prefix.to_set().len());
            assert forall|dd: DeviceView| #[trigger]
                devices.contains(dd) <==> exists|i: int|
                    0 <= i < infos.len() && device_of(#[trigger] infos[i]) == Some(dd) by {
                if devices.contains(dd) {
                    let i = choose|i: int|
                        0 <= i < prefix.len() && device_of(#[trigger] prefix[i]) == Some(dd);
                    assert(device_of(infos[i]) == Some(dd));
                }
                if exists|i: int|
                    0 <= i < infos.len() && device_of(#[trigger] infos[i]) == Some(dd) {
                    let i = choose|i: int|
                        0 <= i < infos.len() && device_of(#[trigger] infos[i]) == Some(dd);
                    if i < infos.len() - 1 {
                        assert(device_of(prefix[i]) == Some(dd));
                        assert(before.contains(dd));
                    } else {
                        assert(dd == d);
                    }
                }
            }
        } else {
            // A genuinely new record: both counts grow by one.
            assert(devices == before.push(d));
            assert(!prefix.to_set().contains(last)) by {
                if prefix.to_set().contains(last) {
                    let i = choose|i: int| 0 <= i < prefix.len() && prefix[i] == last;
                    assert(device_of(prefix[i]) == Some(d));
                    assert(before.contains(d));
                }
            }
            assert(infos.to_set().len() == prefix.to_set().len() + 1);
            assert(devices.no_duplicates()) by {
                assert forall|p: int, q: int|
                    0 <= p < devices.len() && 0 <= q < devices.len() && p != q implies devices[p]
                    != devices[q] by {
                    if p < devices.len() - 1 && q < devices.len() - 1 {
                        assert(devices[p] == before[p] && devices[q] == before[q]);
                    } else if q == devices.len() - 1 {
                        assert(devices[q] == d && devices[p] == before[p]);
                        assert(before.contains(before[p]));
                    } else {
                        assert(devices[p] == d && devices[q] == before[q]);
                        assert(before.contains(before[q]));
                    }
                }
            }
            assert forall|dd: DeviceView| #[trigger]
                devices.contains(dd) <==> exists|i: int|
                    0 <= i < infos.len() && device_of(#[trigger] infos[i]) == Some(dd) by {
                if devices.contains(dd) {
                    let j = choose|j: int| 0 <= j < devices.len() && devices[j] == dd;
                    if j < devices.len() - 1 {
                        assert(before[j] == dd);
                        assert(before.contains(dd));
                        let i = choose|i: int|
                            0 <= i < prefix.len() && device_of(#[trigger] prefix[i]) == Some(dd);
                        assert(device_of(infos[i]) == Some(dd));
                    } else {
                        assert(dd == d);
                        assert(device_of(infos[infos.len() - 1]) == Some(dd));
                    }
                }
                if exists|i: int|
                    0 <= i < infos.len() && device_of(#[trigger] infos[i]) == Some(dd) {
                    let i = choose|i: int|
                        0 <= i < infos.len() && device_of(#[trigger] infos[i]) == Some(dd);
                    if i < infos.len() - 1 {
                        assert(device_of(prefix[i]) == Some(dd));
                        assert(before.contains(dd));
                        let j = choose|j: int| 0 <= j < before.len() && before[j] == dd;
                        assert(devices[j] == dd);
                    } else {
                        assert(devices.last() == dd);
                    }
                }
            }
        }
    }
}

/// Resolution succeeds on every sequence whose architectures are all
/// recognized.
proof fn lemma_collect_all_recognized(infos: Seq<DeviceInfoView>)
    requires
        forall|i: int| 0 <= i < infos.len() ==> arch_target(#[trigger] infos[i].model_arch) is Some,
    ensures
        collect_devices(infos) is Ok,
    decreases infos.len(),
{
    if infos.len() > 0 {
        let prefix = infos.drop_last();
        assert forall|i: int| 0 <= i < prefix.len() implies arch_target(
            #[trigger] prefix[i].model_arch,
        ) is Some by {
            assert(prefix[i] == infos[i]);
        }
        lemma_collect_all_recognized(prefix);
        assert(arch_target(infos[infos.len() - 1].model_arch) is Some);
    }
}

/// Law: when every announced architecture is recognized, parsing succeeds
/// and returns exactly one record per distinct announcement — whatever
/// order the announcements come in and however they interleave with other
/// event kinds, since both sides depend only on the announcement sequence
/// and the count only on its set of values.
pub proof fn lemma_distinct_announcement_count(events: Seq<EventView>)
    requires
        forall|i: int|
            0 <= i < announcements(events).len() ==> arch_target(
                #[trigger] announcements(events)[i].model_arch,
            ) is Some,
    ensures
        parse_result(events) matches Ok(devices) && devices.len() == announcements(
            events,
        ).to_set().len(),
{
    lemma_collect_all_recognized(announcements(events));
    lemma_collect_ok_invariants(announcements(events));
}

/// Law: a successful parse never holds two field-equal records (duplicate
/// announcements collapse to one), and holds a record exactly when some
/// announcement resolves to it — so no record with an unrecognized
/// architecture can ever appear.
pub proof fn lemma_collection_well_formed(events: Seq<EventView>)
    requires
        parse_result(events) is Ok,
    ensures
        parse_result(events) matches Ok(devices) && {
            &&& devices.no_duplicates()
            &&& forall|d: DeviceView|
                devices.contains(d) <==> exists|i: int|
                    0 <= i < announcements(events).len() && device_of(
                        #[trigger] announcements(events)[i],
                    ) == Some(d)
        },
{
    lemma_collect_ok_invariants(announcements(events));
}

/// Law: when some announcement's architecture is unrecognized, parsing
/// fails, the error carries exactly the architecture string of the
/// earliest such announcement, and no collection is produced.
pub proof fn lemma_first_unrecognized_arch(events: Seq<EventView>)
    requires
        exists|i: int|
            0 <= i < announcements(events).len() && arch_target(
                #[trigger] announcements(events)[i].model_arch,
            ) is None,
    ensures
        parse_result(events) matches Err(arch) && exists|i: int|
            {
                &&& 0 <= i < announcements(events).len()
                &&& arch_target(#[trigger] announcements(events)[i].model_arch) is None
                &&& arch == announcements(events)[i].model_arch
                &&& forall|j: int|
                    0 <= j < i ==> arch_target(announcements(events)[j].model_arch) is Some
            },
{
    lemma_collect_first_err(announcements(events));
}

/// The error that resolution reports is the architecture of the earliest
/// unresolvable announcement.
proof fn lemma_collect_first_err(infos: Seq<DeviceInfoView>)
    requires
        exists|i: int|
            0 <= i < infos.len() && arch_target(#[trigger] infos[i].model_arch) is None,
    ensures
        collect_devices(infos) matches Err(arch) && exists|i: int|
            {
                &&& 0 <= i < infos.len()
                &&& arch_target(#[trigger] infos[i].model_arch) is None
                &&& arch == infos[i].model_arch
                &&& forall|j: int| 0 <= j < i ==> arch_target(infos[j].model_arch) is Some
            },
    decreases infos.len(),
{
    let prefix = infos.drop_last();
    let last = infos.last();
    if exists|i: int|
        0 <= i < prefix.len() && arch_target(#[trigger] prefix[i].model_arch) is None {
        lemma_collect_first_err(prefix);
        let i = choose|i: int|
            {
                &&& 0 <= i < prefix.len()
                &&& arch_target(#[trigger] prefix[i].model_arch) is None
                &&& collect_devices(prefix)->Err_0 == prefix[i].model_arch
                &&& forall|j: int| 0 <= j < i ==> arch_target(prefix[j].model_arch) is Some
            };
        assert(infos[i] == prefix[i]);
        assert(forall|j: int| 0 <= j < i ==> infos[j] == prefix[j]);
        assert(collect_devices(infos) == collect_devices(prefix));
    } else {
        assert forall|i: int| 0 <= i < prefix.len() implies arch_target(
            #[trigger] prefix[i].model_arch,
        ) is Some by {}
        lemma_collect_all_recognized(prefix);
        let k = choose|k: int|
            0 <= k < infos.len() && arch_target(#[trigger] infos[k].model_arch) is None;
        assert(k == infos.len() - 1) by {
            if k < infos.len() - 1 {
                assert(arch_target(prefix[k].model_arch) is Some);
            }
        }
        assert(arch_target(last.model_arch) is None);
        assert(device_of(last) is None);
        assert(collect_devices(infos) == Err::<Seq<DeviceView>, Seq<char>>(last.model_arch));
        assert forall|j: int| 0 <= j < infos.len() - 1 implies arch_target(
            infos[j].model_arch,
        ) is Some by {
            assert(infos[j] == prefix[j]);
        }
    }
}

/// Law: parsing is deterministic.  The result — records, their order, or
/// the failure — is a function of the event sequence alone, so repeated
/// runs over byte-identical captured output yield field-equal collections
/// in the same stable order.
pub proof fn lemma_parse_deterministic(first: Seq<EventView>, second: Seq<EventView>)
    requires
        first == second,
    ensures
        parse_result(first) == parse_result(second),
{
}

} // verus!
