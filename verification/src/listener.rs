//! The hotplug listener: which of the devices that udev lists and which of the
//! changes that it reports become events for a proxy device, and in what
//! order.

use crate::device::{
    get_device_property, property_value, DeviceInfo, EventInfo, PropertyList,
};
use crate::filter::{admits, admits_spec, Filter};
use crate::text::str_eq;
use vstd::prelude::*;
use vstd::std_specs::convert::FromSpecImpl;
use vstd::string::*;

verus! {

/// What happened to a device.
#[derive(Debug, Clone, Copy, PartialEq, Eq, Structural)]
pub enum DevEventType {
    UNKNOWN,
    Add,
    Remove,
}

/// The kind of change that udev's action text names.
pub open spec fn action_of(action_raw: Seq<char>) -> DevEventType {
    if action_raw == "add"@ {
        DevEventType::Add
    } else if action_raw == "remove"@ {
        DevEventType::Remove
    } else {
        DevEventType::UNKNOWN
    }
}

impl From<&str> for DevEventType {
    fn from(action_raw: &str) -> (r: Self) {
        if str_eq(action_raw, "add") {
            DevEventType::Add
        } else if str_eq(action_raw, "remove") {
            DevEventType::Remove
        } else {
            DevEventType::UNKNOWN
        }
    }
}

impl FromSpecImpl<&str> for DevEventType {
    open spec fn obeys_from_spec() -> bool {
        true
    }

    open spec fn from_spec(action_raw: &str) -> Self {
        action_of(action_raw@)
    }
}

/// How the listener came to know of a device.
#[derive(Debug, Clone, Copy, PartialEq, Eq, Structural)]
pub enum Provenance {
    /// The device was present when the listener listed the subsystem.
    Enumeration,
    /// The monitor reported a change while the listener ran.
    Monitor,
}

/// One notification of the listener.
#[derive(Debug, PartialEq, Eq)]
pub struct DevEvent {
    pub action: DevEventType,
    pub vendor: String,
    pub product: String,
    pub name: String,
    pub input_class: String,
    pub devpath: String,
    pub devname: String,
    pub subsystem: String,
    pub provenance: Provenance,
}

impl DevEvent {
    /// The device node that the notification asks to add as a source: the
    /// device's node when a device was added, none for any other action.
    pub fn new_source(&self) -> (path: Option<&str>)
        ensures
            path is Some <==> self.action == DevEventType::Add,
            path matches Some(p) ==> p@ == self.devname@,
    {
        match self.action {
            DevEventType::Add => Some(self.devname.as_str()),
            _ => None,
        }
    }
}

/// A notification as contracts see it.
pub struct DevEventView {
    pub action: DevEventType,
    pub vendor: Seq<char>,
    pub product: Seq<char>,
    pub name: Seq<char>,
    pub input_class: Seq<char>,
    pub devpath: Seq<char>,
    pub devname: Seq<char>,
    pub subsystem: Seq<char>,
    pub provenance: Provenance,
}

impl View for DevEvent {
    type V = DevEventView;

    open spec fn view(&self) -> DevEventView {
        DevEventView {
            action: self.action,
            vendor: self.vendor@,
            product: self.product@,
            name: self.name@,
            input_class: self.input_class@,
            devpath: self.devpath@,
            devname: self.devname@,
            subsystem: self.subsystem@,
            provenance: self.provenance,
        }
    }
}

/// The notifications held in `events`, in order.
pub open spec fn events_view(events: Seq<DevEvent>) -> Seq<DevEventView> {
    Seq::new(events.len(), |i: int| events[i]@)
}

/// The property lists of `devices`, in order.
pub open spec fn devices_view(devices: Seq<DeviceInfo>) -> Seq<PropertyList> {
    Seq::new(devices.len(), |i: int| devices[i]@)
}

/// The property lists of `changes`, in order.
pub open spec fn changes_view(changes: Seq<EventInfo>) -> Seq<PropertyList> {
    Seq::new(changes.len(), |i: int| changes[i]@)
}

/// The notification that describes a device with properties `props`.
pub open spec fn describe(
    props: PropertyList,
    action: DevEventType,
    subsystem: Seq<char>,
    provenance: Provenance,
) -> DevEventView {
    DevEventView {
        action,
        vendor: property_value(props, "ID_VENDOR_ID"@),
        product: property_value(props, "ID_MODEL_ID"@),
        name: property_value(props, "NAME"@),
        input_class: property_value(props, ".INPUT_CLASS"@),
        devpath: property_value(props, "DEVPATH"@),
        devname: property_value(props, "DEVNAME"@),
        subsystem,
        provenance,
    }
}

/// Listens for the devices of one subsystem that its filters admit.
pub struct DevListener {
    filters: Vec<Filter>,
    subsystem: String,
    event_queue_size: usize,
}

impl DevListener {
    /// The filters added so far, in order.
    pub closed spec fn filters(&self) -> Seq<Filter> {
        self.filters@
    }

    /// The subsystem listened to.
    pub closed spec fn subsystem(&self) -> Seq<char> {
        self.subsystem@
    }

    /// How many notifications may wait for the consumer.
    pub closed spec fn queue_size(&self) -> usize {
        self.event_queue_size
    }

    pub fn new(subsystem: &str, queue_size: usize) -> (l: DevListener)
        ensures
            l.filters() == Seq::<Filter>::empty(),
            l.subsystem() == subsystem@,
            l.queue_size() == queue_size,
    {
        DevListener {
            subsystem: subsystem.to_owned(),
            filters: Vec::new(),
            event_queue_size: queue_size,
        }
    }

    pub fn add_filter(&mut self, filter: Filter)
        ensures
            final(self).filters() == old(self).filters().push(filter),
            final(self).subsystem() == old(self).subsystem(),
            final(self).queue_size() == old(self).queue_size(),
    {
        self.filters.push(filter);
    }

    /// The name of the subsystem listened to.
    pub fn subsystem_name(&self) -> (s: &str)
        ensures
            s@ == self.subsystem(),
    {
        self.subsystem.as_str()
    }

    /// The capacity to give the queue of notifications.
    pub fn queue_capacity(&self) -> (n: usize)
        ensures
            n == self.queue_size(),
    {
        self.event_queue_size
    }

    /// A device is reported when it has a device node and the filters admit
    /// it.
    pub open spec fn reports(&self, props: PropertyList) -> bool {
        &&& property_value(props, "DEVNAME"@).len() > 0
        &&& admits_spec(self.filters(), props)
    }

    /// The notification for a device that enumeration found.
    pub open spec fn present_event(&self, props: PropertyList) -> DevEventView {
        describe(props, DevEventType::Add, self.subsystem(), Provenance::Enumeration)
    }

    /// The notification for a change that the monitor reported.
    pub open spec fn change_event(&self, props: PropertyList) -> DevEventView {
        describe(
            props,
            action_of(property_value(props, "ACTION"@)),
            self.subsystem(),
            Provenance::Monitor,
        )
    }

    /// The notifications for the devices that enumeration found: one `Add`
    /// for each reported device, in the order of enumeration.
    pub open spec fn enumerated(&self, devices: Seq<PropertyList>) -> Seq<DevEventView>
        decreases devices.len(),
    {
        if devices.len() == 0 {
            Seq::empty()
        } else {
            let before = self.enumerated(devices.drop_last());
            if self.reports(devices.last()) {
                before.push(self.present_event(devices.last()))
            } else {
                before
            }
        }
    }

    /// The notifications for the changes that the monitor reported: one for
    /// each change of a reported device, in the order of the changes.
    pub open spec fn monitored(&self, changes: Seq<PropertyList>) -> Seq<DevEventView>
        decreases changes.len(),
    {
        if changes.len() == 0 {
            Seq::empty()
        } else {
            let before = self.monitored(changes.drop_last());
            if self.reports(changes.last()) {
                before.push(self.change_event(changes.last()))
            } else {
                before
            }
        }
    }

    /// The listener decides on each change by itself and keeps the changes in
    /// order: what it delivers for one run of changes followed by another is
    /// what it delivers for the first run followed by what it delivers for
    /// the second. So a notification for a device never overtakes an earlier
    /// one for the same device.
    pub proof fn lemma_monitored_in_order(
        &self,
        first: Seq<PropertyList>,
        second: Seq<PropertyList>,
    )
        ensures
            self.monitored(first + second) == self.monitored(first) + self.monitored(second),
        decreases second.len(),
    {
        if second.len() == 0 {
            assert(first + second =~= first);
            assert(self.monitored(first) + Seq::<DevEventView>::empty() =~= self.monitored(first));
        } else {
            self.lemma_monitored_in_order(first, second.drop_last());
            assert((first + second).drop_last() =~= first + second.drop_last());
            let before = self.monitored(first) + self.monitored(second.drop_last());
            if self.reports(second.last()) {
                let e = self.change_event(second.last());
                assert(before.push(e) =~= self.monitored(first) + self.monitored(
                    second.drop_last(),
                ).push(e));
            }
        }
    }

    fn build_event(&self, dev: &DeviceInfo, action: DevEventType, provenance: Provenance) -> (e:
        DevEvent)
        ensures
            e@ == describe(dev@, action, self.subsystem(), provenance),
    {
        let devpath_raw = get_device_property(dev, "DEVPATH");
        let devname_raw = get_device_property(dev, "DEVNAME");
        let input_class_raw = get_device_property(dev, ".INPUT_CLASS");
        let name_raw = get_device_property(dev, "NAME");
        let vendor_raw = get_device_property(dev, "ID_VENDOR_ID");
        let model_raw = get_device_property(dev, "ID_MODEL_ID");
        DevEvent {
            action,
            devpath: devpath_raw.to_owned(),
            devname: devname_raw.to_owned(),
            input_class: input_class_raw.to_owned(),
            name: name_raw.to_owned(),
            vendor: vendor_raw.to_owned(),
            product: model_raw.to_owned(),
            subsystem: self.subsystem.clone(),
            provenance,
        }
    }

    fn is_reported(&self, dev: &DeviceInfo) -> (r: bool)
        ensures
            r == self.reports(dev@),
    {
        let devname = get_device_property(dev, "DEVNAME");
        proof {
            reveal_strlit("");
            assert(devname@.len() == 0 <==> devname@ =~= ""@);
        }
        if str_eq(devname, "") {
            return false;
        }
        admits(&self.filters, dev)
    }

    /// The notification for one device that enumeration found, if the device
    /// is reported.
    pub fn on_device(&self, dev: &DeviceInfo) -> (r: Option<DevEvent>)
        ensures
            r is Some <==> self.reports(dev@),
            r matches Some(e) ==> e@ == self.present_event(dev@),
    {
        if !self.is_reported(dev) {
            return None;
        }
        Some(self.build_event(dev, DevEventType::Add, Provenance::Enumeration))
    }

    /// The notification for one change that the monitor reported, if the
    /// device it concerns is reported.
    pub fn on_change(&self, event: &EventInfo) -> (r: Option<DevEvent>)
        ensures
            r is Some <==> self.reports(event@),
            r matches Some(e) ==> e@ == self.change_event(event@),
    {
        if !self.is_reported(&event.device) {
            return None;
        }
        let action = DevEventType::from(get_device_property(&event.device, "ACTION"));
        Some(self.build_event(&event.device, action, Provenance::Monitor))
    }

    /// The notifications for all the devices that enumeration found.
    pub fn enumerate(&self, devices: &Vec<DeviceInfo>) -> (events: Vec<DevEvent>)
        ensures
            events_view(events@) == self.enumerated(devices_view(devices@)),
    {
        let ghost all = devices_view(devices@);
        let mut events: Vec<DevEvent> = Vec::new();
        let mut i: usize = 0;
        while i < devices.len()
            invariant
                i <= devices.len(),
                all == devices_view(devices@),
                events_view(events@) == self.enumerated(all.take(i as int)),
            decreases devices.len() - i,
        {
            proof {
                assert(all.take(i + 1).drop_last() =~= all.take(i as int));
            }
            match self.on_device(&devices[i]) {
                Some(e) => {
                    events.push(e);
                },
                None => {},
            }
            i += 1;
        }
        assert(all.take(devices.len() as int) =~= all);
        events
    }

    /// The notifications for a run of changes that the monitor reported.
    pub fn monitor(&self, changes: &Vec<EventInfo>) -> (events: Vec<DevEvent>)
        ensures
            events_view(events@) == self.monitored(changes_view(changes@)),
    {
        let ghost all = changes_view(changes@);
        let mut events: Vec<DevEvent> = Vec::new();
        let mut i: usize = 0;
        while i < changes.len()
            invariant
                i <= changes.len(),
                all == changes_view(changes@),
                events_view(events@) == self.monitored(all.take(i as int)),
            decreases changes.len() - i,
        {
            proof {
                assert(all.take(i + 1).drop_last() =~= all.take(i as int));
            }
            match self.on_change(&changes[i]) {
                Some(e) => {
                    events.push(e);
                },
                None => {},
            }
            i += 1;
        }
        assert(all.take(changes.len() as int) =~= all);
        events
    }

    /// What a listener delivers when enumeration finds `present` and the
    /// monitor then either fails to start or reports `changes`: the failure,
    /// or the notifications for the present devices followed by those for the
    /// changes.
    pub fn listen<E>(self, present: &Vec<DeviceInfo>, monitor: Result<Vec<EventInfo>, E>) -> (r:
        Result<Vec<DevEvent>, E>)
        ensures
            match monitor {
                Err(e) => r == Err::<Vec<DevEvent>, E>(e),
                Ok(changes) => r matches Ok(events) && events_view(events@) == self.enumerated(
                    devices_view(present@),
                ) + self.monitored(changes_view(changes@)),
            },
    {
        match monitor {
            Err(e) => Err(e),
            Ok(changes) => {
                let mut events = self.enumerate(present);
                let mut later = self.monitor(&changes);
                events.append(&mut later);
                Ok(events)
            },
        }
    }
}

} // verus!
