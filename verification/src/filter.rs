//! Selection of devices by USB vendor and model id, and by input class.

use crate::device::{get_device_property, property_value, DeviceInfo, EventInfo, PropertyList};
use crate::hexid::{format_hex4, hex4, lemma_hex4_is_lower};
use crate::text::{
    eq_ignore_ascii_case, eq_ignore_case, is_lower, lemma_eq_ignore_case_of_lower, str_eq,
};
use std::fmt::Debug;
use vstd::prelude::*;
use vstd::string::*;

verus! {

/// The device's vendor and model id properties hold `vendor` and `model`,
/// whatever the case of their hexadecimal digits.
pub open spec fn ids_match(props: PropertyList, vendor: Seq<char>, model: Seq<char>) -> bool {
    &&& eq_ignore_case(property_value(props, "ID_VENDOR_ID"@), vendor)
    &&& eq_ignore_case(property_value(props, "ID_MODEL_ID"@), model)
}

/// Where a device's ids are written without capital letters, as udev writes
/// them, the ids match exactly when they are the four hexadecimal digits of
/// `vendor` and of `model`.
pub proof fn lemma_ids_match_exactly(props: PropertyList, vendor: u16, model: u16)
    requires
        is_lower(property_value(props, "ID_VENDOR_ID"@)),
        is_lower(property_value(props, "ID_MODEL_ID"@)),
    ensures
        ids_match(props, hex4(vendor), hex4(model)) <==> {
            &&& property_value(props, "ID_VENDOR_ID"@) == hex4(vendor)
            &&& property_value(props, "ID_MODEL_ID"@) == hex4(model)
        },
{
    lemma_hex4_is_lower(vendor);
    lemma_hex4_is_lower(model);
    lemma_eq_ignore_case_of_lower(property_value(props, "ID_VENDOR_ID"@), hex4(vendor));
    lemma_eq_ignore_case_of_lower(property_value(props, "ID_MODEL_ID"@), hex4(model));
}

/// The input class that a device announces.
#[derive(Debug, Copy, Clone, PartialEq, Eq, Structural)]
pub enum USBHIDClass {
    Keyboard,
    Mouse,
}

/// The name of the property by which udev marks devices of class `c`.
pub open spec fn class_prop(c: USBHIDClass) -> Seq<char> {
    match c {
        USBHIDClass::Keyboard => "ID_INPUT_KEYBOARD"@,
        USBHIDClass::Mouse => "ID_INPUT_MOUSE"@,
    }
}

/// The device is marked as one of class `c`.
pub open spec fn class_matches(props: PropertyList, c: USBHIDClass) -> bool {
    property_value(props, class_prop(c)) == "1"@
}

pub fn get_class_prop(c: &USBHIDClass) -> (p: &'static str)
    ensures
        p@ == class_prop(*c),
{
    match c {
        USBHIDClass::Keyboard => "ID_INPUT_KEYBOARD",
        USBHIDClass::Mouse => "ID_INPUT_MOUSE",
    }
}

/// A rule that a device either meets or does not.
pub trait DevFilter: Debug {
    /// What the rule asks of a device's properties.
    spec fn matches(&self, props: PropertyList) -> bool;

    fn match_event(&self, e: &EventInfo) -> (r: bool)
        ensures
            r == self.matches(e@),
    ;

    fn match_device(&self, e: &DeviceInfo) -> (r: bool)
        ensures
            r == self.matches(e@),
    ;
}

fn device_ids_match(e: &DeviceInfo, vendor: &str, model: &str) -> (r: bool)
    ensures
        r == ids_match(e@, vendor@, model@),
{
    if !eq_ignore_ascii_case(get_device_property(e, "ID_VENDOR_ID"), vendor) {
        return false;
    }
    if !eq_ignore_ascii_case(get_device_property(e, "ID_MODEL_ID"), model) {
        return false;
    }
    true
}

/// Selects the devices of one USB vendor and model.
#[derive(Debug)]
pub struct USBIDFilter {
    vendor: String,
    model: String,
}

impl USBIDFilter {
    /// The vendor id the filter asks for, as four hexadecimal digits.
    pub closed spec fn vendor(&self) -> Seq<char> {
        self.vendor@
    }

    /// The model id the filter asks for, as four hexadecimal digits.
    pub closed spec fn model(&self) -> Seq<char> {
        self.model@
    }

    pub fn new(vendor: u16, model: u16) -> (f: Self)
        ensures
            f.vendor() == hex4(vendor),
            f.model() == hex4(model),
    {
        USBIDFilter { vendor: format_hex4(vendor), model: format_hex4(model) }
    }
}

impl DevFilter for USBIDFilter {
    open spec fn matches(&self, props: PropertyList) -> bool {
        ids_match(props, self.vendor(), self.model())
    }

    fn match_event(&self, e: &EventInfo) -> (r: bool) {
        self.match_device(&e.device)
    }

    fn match_device(&self, e: &DeviceInfo) -> (r: bool) {
        device_ids_match(e, self.vendor.as_str(), self.model.as_str())
    }
}

/// Selects the devices of one vendor and model by their device ids.
#[derive(Debug)]
pub struct DevIDFilter {
    vendor: String,
    model: String,
}

impl DevIDFilter {
    /// The vendor id the filter asks for, as four hexadecimal digits.
    pub closed spec fn vendor(&self) -> Seq<char> {
        self.vendor@
    }

    /// The model id the filter asks for, as four hexadecimal digits.
    pub closed spec fn model(&self) -> Seq<char> {
        self.model@
    }

    pub fn new(vendor: u16, model: u16) -> (f: Self)
        ensures
            f.vendor() == hex4(vendor),
            f.model() == hex4(model),
    {
        DevIDFilter { vendor: format_hex4(vendor), model: format_hex4(model) }
    }
}

impl DevFilter for DevIDFilter {
    open spec fn matches(&self, props: PropertyList) -> bool {
        ids_match(props, self.vendor(), self.model())
    }

    fn match_event(&self, e: &EventInfo) -> (r: bool) {
        self.match_device(&e.device)
    }

    fn match_device(&self, e: &DeviceInfo) -> (r: bool) {
        device_ids_match(e, self.vendor.as_str(), self.model.as_str())
    }
}

/// Selects the devices of one USB vendor and model that announce a given
/// input class.
#[derive(Debug)]
pub struct USBIDClassFilter {
    vendor: String,
    model: String,
    class: USBHIDClass,
}

impl USBIDClassFilter {
    /// The vendor id the filter asks for, as four hexadecimal digits.
    pub closed spec fn vendor(&self) -> Seq<char> {
        self.vendor@
    }

    /// The model id the filter asks for, as four hexadecimal digits.
    pub closed spec fn model(&self) -> Seq<char> {
        self.model@
    }

    /// The input class the filter asks for.
    pub closed spec fn class(&self) -> USBHIDClass {
        self.class
    }

    pub fn new(vendor: u16, model: u16, class: USBHIDClass) -> (f: Self)
        ensures
            f.vendor() == hex4(vendor),
            f.model() == hex4(model),
            f.class() == class,
    {
        USBIDClassFilter { vendor: format_hex4(vendor), model: format_hex4(model), class }
    }
}

impl DevFilter for USBIDClassFilter {
    open spec fn matches(&self, props: PropertyList) -> bool {
        &&& ids_match(props, self.vendor(), self.model())
        &&& class_matches(props, self.class())
    }

    fn match_event(&self, e: &EventInfo) -> (r: bool) {
        self.match_device(&e.device)
    }

    fn match_device(&self, e: &DeviceInfo) -> (r: bool) {
        if !device_ids_match(e, self.vendor.as_str(), self.model.as_str()) {
            return false;
        }
        if !str_eq(get_device_property(e, get_class_prop(&self.class)), "1") {
            return false;
        }
        true
    }
}

/// Any one of the filters of this library.
#[derive(Debug)]
pub enum Filter {
    USBID(USBIDFilter),
    USBIDClass(USBIDClassFilter),
    DevID(DevIDFilter),
}

impl DevFilter for Filter {
    open spec fn matches(&self, props: PropertyList) -> bool {
        match *self {
            Filter::USBID(f) => f.matches(props),
            Filter::USBIDClass(f) => f.matches(props),
            Filter::DevID(f) => f.matches(props),
        }
    }

    fn match_event(&self, e: &EventInfo) -> (r: bool) {
        self.match_device(&e.device)
    }

    fn match_device(&self, e: &DeviceInfo) -> (r: bool) {
        match self {
            Filter::USBID(f) => f.match_device(e),
            Filter::USBIDClass(f) => f.match_device(e),
            Filter::DevID(f) => f.match_device(e),
        }
    }
}

/// A set of filters admits a device when the set is empty or one of its
/// filters matches the device.
pub open spec fn admits_spec(filters: Seq<Filter>, props: PropertyList) -> bool {
    filters.len() == 0 || exists|i: int|
        0 <= i < filters.len() && (#[trigger] filters[i]).matches(props)
}

/// Whether the filters admit the device: any one of them matches it, or there
/// are none.
pub fn admits(filters: &Vec<Filter>, dev: &DeviceInfo) -> (r: bool)
    ensures
        r == admits_spec(filters@, dev@),
{
    if filters.len() == 0 {
        return true;
    }
    let mut i: usize = 0;
    while i < filters.len()
        invariant
            i <= filters.len(),
            forall|j: int| 0 <= j < i ==> !(#[trigger] filters@[j]).matches(dev@),
        decreases filters.len() - i,
    {
        if filters[i].match_device(dev) {
            return true;
        }
        i += 1;
    }
    false
}

} // verus!
