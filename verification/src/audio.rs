//! The audio devices that can be chosen.
use vstd::prelude::*;

use crate::ordering;
use crate::text;

verus! {

/// The name of the device that the system chooses.
pub const DEFAULT_DEVICE: &'static str = "Default (System Default)";

/// The audio devices that can be chosen.
#[derive(Debug)]
pub struct AudioDevicesResponse {
    pub input_devices: Vec<String>,
    pub default_device: Option<String>,
}

/// Which of the names found are listed: those that are not blank, each once.
pub open spec fn listed(names: Seq<Seq<char>>) -> Seq<bool> {
    Seq::new(
        names.len(),
        |i: int|
            !text::is_blank(names[i]) && names[i] != DEFAULT_DEVICE@ && !names.take(i).contains(
                names[i],
            ),
    )
}

/// The names that can be chosen.
pub open spec fn devices(names: Seq<Seq<char>>) -> Seq<Seq<char>> {
    seq![DEFAULT_DEVICE@] + ordering::in_order(names, ordering::places(listed(names)))
}

/// Lists the devices: the one that the system chooses, then the names found in
/// their order.
pub fn list_input_devices(names: &Vec<String>) -> (res: AudioDevicesResponse)
    ensures
        text::views(res.input_devices@) == devices(text::views(names@)),
        text::opt_view(res.default_device) == Some(DEFAULT_DEVICE@),
{
    let ghost all = text::views(names@);
    let ghost flags = listed(all);
    let first = ordering::first_occurrences(names);
    let mut input_devices: Vec<String> = Vec::new();
    input_devices.push(DEFAULT_DEVICE.to_owned());
    let ghost head = seq![DEFAULT_DEVICE@];
    assert(text::views(input_devices@) == head + ordering::in_order(
        all,
        ordering::places(flags.take(0)),
    ));
    let mut i: usize = 0;
    while i < names.len()
        invariant
            i <= names@.len(),
            all == text::views(names@),
            flags == listed(all),
            first@.len() == names@.len(),
            forall|k: int|
                0 <= k < names@.len() ==> #[trigger] first@[k] == !all.take(k).contains(
                    names@[k]@,
                ),
            text::views(input_devices@) == head + ordering::in_order(
                all,
                ordering::places(flags.take(i as int)),
            ),
        decreases names@.len() - i,
    {
        let ghost before = input_devices@;
        let ghost places = ordering::places(flags.take(i as int));
        assert(all[i as int] == names@[i as int]@);
        if !text::is_blank_text(names[i].as_str()) && !text::same_text(
            names[i].as_str(),
            DEFAULT_DEVICE,
        ) && first[i] {
            input_devices.push(names[i].clone());
            assert(text::views(input_devices@) == text::views(before).push(all[i as int]));
            assert(head + ordering::in_order(all, places.push(i as int)) == (head
                + ordering::in_order(all, places)).push(all[i as int]));
        }
        i += 1;
        assert(flags.take(i as int).drop_last() == flags.take(i - 1));
        assert(flags.take(i as int).last() == flags[i - 1]);
    }
    assert(flags.take(i as int) == flags);
    AudioDevicesResponse { input_devices, default_device: Some(DEFAULT_DEVICE.to_owned()) }
}

/// The list begins with the device of the system, and names no device twice.
pub proof fn law_devices_are_listed_once(names: Seq<Seq<char>>)
    ensures
        devices(names)[0] == DEFAULT_DEVICE@,
        forall|j: int, k: int|
            0 <= j < k < devices(names).len() ==> #[trigger] devices(names)[j]
                != #[trigger] devices(names)[k],
{
    let flags = listed(names);
    let places = ordering::places(flags);
    let list = devices(names);
    ordering::lemma_places(flags);
    assert forall|j: int, k: int| 0 <= j < k < list.len() implies #[trigger] list[j]
        != #[trigger] list[k] by {
        let later = places[k - 1];
        assert(flags[later]);
        assert(list[k] == names[later]);
        if j > 0 {
            let earlier = places[j - 1];
            assert(earlier < later);
            assert(list[j] == names[earlier]);
            assert(names.take(later)[earlier] == names[earlier]);
        }
    }
}

/// Every device with a name of its own is listed, after that of the system; a
/// blank name is not.
pub proof fn law_named_devices_are_listed(names: Seq<Seq<char>>, i: int)
    requires
        0 <= i < names.len(),
    ensures
        devices(names)[0] == "Default (System Default)"@,
        !text::is_blank(names[i]) ==> devices(names).contains(names[i]),
        text::is_blank(names[i]) && names[i] != "Default (System Default)"@ ==> !devices(
            names,
        ).contains(names[i]),
        devices(names).len() <= names.len() + 1,
{
    let flags = listed(names);
    let places = ordering::places(flags);
    let list = devices(names);
    ordering::lemma_places(flags);
    if !text::is_blank(names[i]) && names[i] != DEFAULT_DEVICE@ {
        ordering::lemma_found(names, names[i]);
        let first = ordering::found_at(names, names[i])->0;
        assert(names.contains(names[i]));
        assert(!names.take(first).contains(names[first])) by {
            if names.take(first).contains(names[first]) {
                let k = names.take(first).index_of(names[first]);
                assert(names[k] == names[first]);
            }
        }
        assert(flags[first]);
        assert(places.contains(first));
        let k = places.index_of(first);
        assert(list[k + 1] == names[first]);
    } else if names[i] == DEFAULT_DEVICE@ {
        assert(list[0] == names[i]);
    }
    if text::is_blank(names[i]) && names[i] != DEFAULT_DEVICE@ && list.contains(names[i]) {
        let k = list.index_of(names[i]);
        assert(flags[places[k - 1]]);
        assert(list[k] == names[places[k - 1]]);
    }
}

} // verus!
