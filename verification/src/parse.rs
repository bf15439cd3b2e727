//! Mapping structured events to a validated device collection.

use vstd::prelude::*;

use crate::collection::DeviceCollection;
use crate::device::{device_of, Device, DeviceInfoView, DeviceView, Event, EventView, Target};
use crate::error::DeviceListError;

verus! {

/// The device announcements among a sequence of events, in order; every
/// other event kind is skipped.
pub open spec fn announcements(events: Seq<EventView>) -> Seq<DeviceInfoView>
    decreases events.len(),
{
    if events.len() == 0 {
        Seq::empty()
    } else {
        match events.last() {
            EventView::DeviceDetected(info) => announcements(events.drop_last()).push(info),
            EventView::Other => announcements(events.drop_last()),
        }
    }
}

/// Resolves announcements to device records in order, keeping the first
/// occurrence of each record and dropping later duplicates.  The first
/// announcement whose architecture the registry does not recognize fails
/// the whole computation with that architecture string.
pub open spec fn collect_devices(infos: Seq<DeviceInfoView>) -> Result<Seq<DeviceView>, Seq<char>>
    decreases infos.len(),
{
    if infos.len() == 0 {
        Ok(Seq::empty())
    } else {
        match collect_devices(infos.drop_last()) {
            Err(arch) => Err(arch),
            Ok(devices) => match device_of(infos.last()) {
                None => Err(infos.last().model_arch),
                Some(d) => Ok(
                    if devices.contains(d) {
                        devices
                    } else {
                        devices.push(d)
                    },
                ),
            },
        }
    }
}

/// What parsing a sequence of events must yield: the deduplicated devices,
/// or the architecture string of the earliest unrecognized announcement.
pub open spec fn parse_result(events: Seq<EventView>) -> Result<Seq<DeviceView>, Seq<char>> {
    collect_devices(announcements(events))
}

/// Announcements distribute over concatenation of event sequences.
proof fn lemma_announcements_concat(s: Seq<EventView>, t: Seq<EventView>)
    ensures
        announcements(s + t) == announcements(s) + announcements(t),
    decreases t.len(),
{
    if t.len() == 0 {
        assert(s + t =~= s);
        assert(announcements(s) + announcements(t) =~= announcements(s));
    } else {
        lemma_announcements_concat(s, t.drop_last());
        assert((s + t).drop_last() =~= s + t.drop_last());
        assert((s + t).last() == t.last());
        match t.last() {
            EventView::DeviceDetected(info) => {
                assert(announcements(s) + announcements(t) =~= (announcements(s)
                    + announcements(t.drop_last())).push(info));
            },
            EventView::Other => {
                assert(announcements(s) + announcements(t) =~= announcements(s)
                    + announcements(t.drop_last()));
            },
        }
    }
}

/// Once resolution has failed, appending further announcements cannot
/// change the outcome.
proof fn lemma_collect_err_persists(s: Seq<DeviceInfoView>, t: Seq<DeviceInfoView>)
    requires
        collect_devices(s) is Err,
    ensures
        collect_devices(s + t) == collect_devices(s),
    decreases t.len(),
{
    if t.len() == 0 {
        assert(s + t =~= s);
    } else {
        lemma_collect_err_persists(s, t.drop_last());
        assert((s + t).drop_last() =~= s + t.drop_last());
    }
}

/// Converts captured announcements to the validated device collection.
///
/// Succeeds with the deduplicated records, in first-occurrence order, when
/// every announced architecture is in the registry; fails with
/// `ArchInvalid` carrying the earliest unrecognized architecture string
/// otherwise, and then no collection is produced.
pub fn parse_device_list(events: &Vec<Event>) -> (r: Result<DeviceCollection, DeviceListError>)
    ensures
        match parse_result(events@.map_values(|e: Event| e@)) {
            Ok(devices) => r matches Ok(c) && c@ == devices,
            Err(arch) => r matches Err(e) && (e matches DeviceListError::ArchInvalid(a) && a@
                == arch),
        },
{
    let ghost evs = events@.map_values(|e: Event| e@);
    let mut collection = DeviceCollection::new();
    let n = events.len();
    let mut i: usize = 0;
    while i < n
        invariant
            n == events@.len(),
            evs == events@.map_values(|e: Event| e@),
            i <= n,
            collect_devices(announcements(evs.subrange(0, i as int))) == Ok::<
                Seq<DeviceView>,
                Seq<char>,
            >(collection@),
        decreases n - i,
    {
        let ghost prefix = evs.subrange(0, i as int);
        let ghost extended = evs.subrange(0, i as int + 1);
        proof {
            assert(extended.drop_last() =~= prefix);
            assert(extended.last() == evs[i as int]);
        }
        match &events[i] {
            Event::Other => {
                proof {
                    assert(announcements(extended) == announcements(prefix));
                }
            },
            Event::DeviceDetected(info) => {
                let ghost anns = announcements(prefix);
                proof {
                    assert(announcements(extended) == anns.push(info@));
                    assert(anns.push(info@).drop_last() =~= anns);
                    assert(anns.push(info@).last() == info@);
                }
                match Target::for_arch(info.model_arch.as_str()) {
                    Some(target) => {
                        let device = Device {
                            identifier: info.device_identifier.clone(),
                            name: info.device_name.clone(),
                            model_name: info.model_name.clone(),
                            target,
                        };
                        proof {
                            assert(device_of(info@) == Some(device@));
                        }
                        collection.insert(device);
                    },
                    None => {
                        proof {
                            assert(device_of(info@) is None);
                            assert(collect_devices(announcements(extended)) == Err::<
                                Seq<DeviceView>,
                                Seq<char>,
                            >(info@.model_arch));
                            assert(evs =~= extended + evs.subrange(i as int + 1, n as int));
                            lemma_announcements_concat(
                                extended,
                                evs.subrange(i as int + 1, n as int),
                            );
                            lemma_collect_err_persists(
                                announcements(extended),
                                announcements(evs.subrange(i as int + 1, n as int)),
                            );
                        }
                        return Err(DeviceListError::ArchInvalid(info.model_arch.clone()));
                    },
                }
            },
        }
        i += 1;
    }
    proof {
        assert(evs.subrange(0, n as int) =~= evs);
    }
    Ok(collection)
}

} // verus!
