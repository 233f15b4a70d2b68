//! Keyboard repeat settings: which configured devices get a repeat rate
//! and delay. The compositor takes both values in one request, so an entry
//! is applied only when it sets both, to non-negative values, and names a
//! keyboard.
use crate::config::{InputDeviceConfig, lemma_last_index_bounds, spec_last_index_with};
use vstd::prelude::*;

verus! {

/// A known input device's name.
pub open spec fn device_name() -> spec_fn((String, u32)) -> Seq<char> {
    |d: (String, u32)| d.0@
}

/// The repeat request of configuration entry `e`, given the known input
/// devices as (name, type) pairs in registration order, type 0 being a
/// keyboard: the position of the device registered last under the entry's
/// name, with the rate and delay; none unless both are set, non-negative,
/// and that device is a keyboard.
pub open spec fn spec_repeat_request(e: InputDeviceConfig, devices: Seq<(String, u32)>) -> Option<(usize, i32, i32)> {
    match (e.repeat_rate, e.repeat_delay) {
        (Some(rate), Some(delay)) => if rate >= 0 && delay >= 0 {
            match spec_last_index_with(devices, e.name@, device_name()) {
                Some(k) => if devices[k].1 == 0 {
                    Some((k as usize, rate, delay))
                } else {
                    None
                },
                None => None,
            }
        } else {
            None
        },
        _ => None,
    }
}

/// The repeat requests of configuration entries `es`, in order.
pub open spec fn spec_repeat_requests(es: Seq<InputDeviceConfig>, devices: Seq<(String, u32)>) -> Seq<(usize, i32, i32)>
    decreases es.len(),
{
    if es.len() == 0 {
        Seq::empty()
    } else {
        spec_repeat_requests(es.drop_last(), devices) + match spec_repeat_request(es.last(), devices) {
            Some(x) => seq![x],
            None => Seq::empty(),
        }
    }
}

fn find_device(devices: &Vec<(String, u32)>, name: &String) -> (r: Option<usize>)
    ensures
        match r {
            Some(k) => k < devices@.len() && spec_last_index_with(devices@, name@, device_name()) == Some(k as int),
            None => spec_last_index_with(devices@, name@, device_name()) is None,
        },
{
    proof {
        lemma_last_index_bounds(devices@, name@, device_name());
    }
    let mut i = devices.len();
    assert(devices@.take(i as int) =~= devices@);
    while i > 0
        invariant
            i <= devices@.len(),
            spec_last_index_with(devices@, name@, device_name()) == spec_last_index_with(
                devices@.take(i as int),
                name@,
                device_name(),
            ),
        decreases i,
    {
        assert(devices@.take(i as int).drop_last() =~= devices@.take(i - 1));
        if devices[i - 1].0 == *name {
            return Some(i - 1);
        }
        i = i - 1;
    }
    None
}

/// Decide the repeat requests of configuration entries `entries` (see
/// [`spec_repeat_requests`]).
pub fn repeat_requests(entries: &Vec<InputDeviceConfig>, devices: &Vec<(String, u32)>) -> (r: Vec<(usize, i32, i32)>)
    ensures
        r@ == spec_repeat_requests(entries@, devices@),
{
    let mut r: Vec<(usize, i32, i32)> = Vec::new();
    let mut i: usize = 0;
    assert(entries@.take(0) =~= Seq::<InputDeviceConfig>::empty());
    while i < entries.len()
        invariant
            i <= entries@.len(),
            r@ == spec_repeat_requests(entries@.take(i as int), devices@),
        decreases entries@.len() - i,
    {
        proof {
            assert(entries@.take(i + 1).drop_last() =~= entries@.take(i as int));
            assert(entries@.take(i + 1).last() == entries@[i as int]);
        }
        let e = &entries[i];
        let ghost before = r@;
        match (e.repeat_rate, e.repeat_delay) {
            (Some(rate), Some(delay)) => {
                if rate >= 0 && delay >= 0 {
                    match find_device(devices, &e.name) {
                        Some(k) => {
                            if devices[k].1 == 0 {
                                r.push((k, rate, delay));
                            }
                        },
                        None => {},
                    }
                }
            },
            _ => {},
        }
        assert(r@ =~= spec_repeat_requests(entries@.take(i + 1), devices@));
        i = i + 1;
    }
    assert(entries@.take(entries@.len() as int) =~= entries@);
    r
}

} // verus!
