//! The configuration of the daemon: the virtual devices to present and the
//! selectors that say which physical devices feed each of them.

use crate::device::PropertyList;
use crate::filter::{
    admits_spec, class_matches, ids_match, DevFilter, Filter, USBHIDClass, USBIDClassFilter,
    USBIDFilter,
};
use crate::hexid::hex4;
use crate::listener::DevListener;
use crate::proxydev::SimpleDeviceClass;
use vstd::prelude::*;

verus! {

#[derive(Debug)]
pub struct SelfConfig {
    pub device: Vec<Device>,
    pub log_level: String,
}

/// One virtual device.
#[derive(Debug)]
pub enum Device {
    Simple {
        name: String,
        vendor: u16,
        model: u16,
        class: SimpleDeviceClass,
        selector: Option<Vec<DeviceSelector>>,
    },
}

/// A rule that picks physical devices.
#[derive(Debug, Clone, Copy, PartialEq, Eq)]
pub enum DeviceSelector {
    USBID { vendor: u16, model: u16 },
    USBIDClass { vendor: u16, model: u16, class: USBHIDClass },
}

/// A selector picks the devices whose vendor and model ids are its own and
/// which, where it names a class, are marked as of that class.
pub open spec fn selects(s: DeviceSelector, props: PropertyList) -> bool {
    match s {
        DeviceSelector::USBID { vendor, model } => ids_match(props, hex4(vendor), hex4(model)),
        DeviceSelector::USBIDClass { vendor, model, class } => {
            &&& ids_match(props, hex4(vendor), hex4(model))
            &&& class_matches(props, class)
        },
    }
}

/// A list of selectors picks a device when the list is empty or one of the
/// selectors picks it.
pub open spec fn any_selects(selectors: Seq<DeviceSelector>, props: PropertyList) -> bool {
    selectors.len() == 0 || exists|i: int|
        0 <= i < selectors.len() && selects(#[trigger] selectors[i], props)
}

/// The filter matches what the selector picks.
pub open spec fn filter_follows(filter: Filter, s: DeviceSelector) -> bool {
    forall|props: PropertyList| (#[trigger] filter.matches(props)) == selects(s, props)
}

/// Each filter matches what the selector in its place picks.
pub open spec fn filters_follow(
    filters: Seq<Filter>,
    selectors: Seq<DeviceSelector>,
) -> bool {
    &&& filters.len() == selectors.len()
    &&& forall|i: int|
        0 <= i < filters.len() ==> filter_follows(#[trigger] filters[i], selectors[i])
}

/// The filter that matches what a selector picks.
pub fn selector_by_config(s: &DeviceSelector) -> (f: Filter)
    ensures
        filter_follows(f, *s),
{
    match s {
        DeviceSelector::USBID { vendor, model } => Filter::USBID(
            USBIDFilter::new(*vendor, *model),
        ),
        DeviceSelector::USBIDClass { vendor, model, class } => Filter::USBIDClass(
            USBIDClassFilter::new(*vendor, *model, *class),
        ),
    }
}

/// A listener on `subsystem` with one filter for each configured selector, in
/// the order of the configuration; with no filter where none is configured.
pub fn listener_by_config(
    subsystem: &str,
    queue_size: usize,
    selector: &Option<Vec<DeviceSelector>>,
) -> (l: DevListener)
    ensures
        l.subsystem() == subsystem@,
        l.queue_size() == queue_size,
        match *selector {
            Some(selectors) => filters_follow(l.filters(), selectors@),
            None => l.filters().len() == 0,
        },
{
    let mut l = DevListener::new(subsystem, queue_size);
    match selector {
        None => {},
        Some(selectors) => {
            let mut i: usize = 0;
            while i < selectors.len()
                invariant
                    i <= selectors.len(),
                    l.subsystem() == subsystem@,
                    l.queue_size() == queue_size,
                    filters_follow(l.filters(), selectors@.take(i as int)),
                decreases selectors.len() - i,
            {
                let f = selector_by_config(&selectors[i]);
                l.add_filter(f);
                i += 1;
            }
        },
    }
    l
}

/// Filters made from selectors admit exactly the devices that the selectors
/// pick: every device when there is no selector, else those that at least one
/// selector picks.
pub proof fn lemma_admits_by_selectors(
    filters: Seq<Filter>,
    selectors: Seq<DeviceSelector>,
    props: PropertyList,
)
    requires
        filters_follow(filters, selectors),
    ensures
        admits_spec(filters, props) <==> any_selects(selectors, props),
{
    if admits_spec(filters, props) && filters.len() > 0 {
        let i = choose|i: int| 0 <= i < filters.len() && (#[trigger] filters[i]).matches(props);
        assert(filter_follows(filters[i], selectors[i]));
        assert(selects(selectors[i], props));
    }
    if any_selects(selectors, props) && selectors.len() > 0 {
        let i = choose|i: int| 0 <= i < selectors.len() && selects(#[trigger] selectors[i], props);
        assert(filter_follows(filters[i], selectors[i]));
        assert(filters[i].matches(props));
    }
}

} // verus!
