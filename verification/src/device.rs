//! What udev tells of a device: a list of named properties. Enumeration yields
//! one such list for each device that is present, the monitor one for each
//! change it reports.

use crate::text::str_eq;
use vstd::prelude::*;
use vstd::string::*;
use vstd::utf8::{decode_utf8, encode_utf8_decode_utf8, valid_utf8};

verus! {

/// A list of properties as contracts see it: names paired with values.
pub type PropertyList = Seq<(Seq<char>, Seq<char>)>;

/// One udev property.
#[derive(Debug)]
pub struct Property {
    pub name: String,
    pub value: String,
}

impl View for Property {
    type V = (Seq<char>, Seq<char>);

    open spec fn view(&self) -> (Seq<char>, Seq<char>) {
        (self.name@, self.value@)
    }
}

/// The text that the bytes encode; the empty text for bytes that are no
/// valid UTF-8.
pub open spec fn text_or_empty(bytes: Seq<u8>) -> Seq<char> {
    if valid_utf8(bytes) {
        decode_utf8(bytes)
    } else {
        Seq::empty()
    }
}

/// Reads bytes as text with `std::str::from_utf8`. Trusted: that it accepts
/// exactly the valid UTF-8 encodings, and that the text it hands back is made
/// of the very bytes it was given.
#[verifier::external_body]
fn utf8_text(bytes: &[u8]) -> (text: Option<&str>)
    ensures
        text is Some <==> valid_utf8(bytes@),
        text matches Some(s) ==> s.spec_bytes() == bytes@,
{
    match std::str::from_utf8(bytes) {
        Ok(s) => Some(s),
        Err(_) => None,
    }
}

impl Property {
    pub fn new(name: &str, value: &str) -> (p: Property)
        ensures
            p@ == (name@, value@),
    {
        Property { name: name.to_owned(), value: value.to_owned() }
    }

    /// The property that udev reports as the bytes `name` and `value`. A
    /// value that cannot be read as text counts as empty. A name that cannot
    /// be read as text gives no property: no key could ask for it.
    pub fn from_bytes(name: &[u8], value: &[u8]) -> (r: Option<Property>)
        ensures
            r is Some <==> valid_utf8(name@),
            r matches Some(p) ==> p@ == (decode_utf8(name@), text_or_empty(value@)),
    {
        let name_text = match utf8_text(name) {
            Some(s) => s,
            None => {
                return None;
            },
        };
        let value_text = match utf8_text(value) {
            Some(s) => s,
            None => "",
        };
        proof {
            reveal_strlit("");
            encode_utf8_decode_utf8(name_text@);
            encode_utf8_decode_utf8(value_text@);
        }
        Some(Property::new(name_text, value_text))
    }
}

/// The properties held in `props`, in order.
pub open spec fn properties_view(props: Seq<Property>) -> PropertyList {
    Seq::new(props.len(), |i: int| props[i]@)
}

/// The value of the first property named `key`; the empty text when no
/// property has that name.
pub open spec fn property_value(props: PropertyList, key: Seq<char>) -> Seq<char>
    decreases props.len(),
{
    if props.len() == 0 {
        Seq::empty()
    } else if props[0].0 == key {
        props[0].1
    } else {
        property_value(props.drop_first(), key)
    }
}

/// A device found by enumeration.
#[derive(Debug)]
pub struct DeviceInfo {
    pub properties: Vec<Property>,
}

impl View for DeviceInfo {
    type V = PropertyList;

    open spec fn view(&self) -> PropertyList {
        properties_view(self.properties@)
    }
}

impl DeviceInfo {
    pub fn new(properties: Vec<Property>) -> (d: DeviceInfo)
        ensures
            d.properties == properties,
    {
        DeviceInfo { properties }
    }
}

/// A change reported by the monitor: the device it concerns, with the action
/// among the device's properties.
#[derive(Debug)]
pub struct EventInfo {
    pub device: DeviceInfo,
}

impl View for EventInfo {
    type V = PropertyList;

    open spec fn view(&self) -> PropertyList {
        self.device@
    }
}

impl EventInfo {
    pub fn new(properties: Vec<Property>) -> (e: EventInfo)
        ensures
            e.device.properties == properties,
    {
        EventInfo { device: DeviceInfo { properties } }
    }
}

/// Looking past a property of another name does not change what is found.
proof fn lemma_property_value_skip(props: PropertyList, key: Seq<char>, i: int)
    requires
        0 <= i < props.len(),
        props[i].0 != key,
        property_value(props, key) == property_value(props.skip(i), key),
    ensures
        property_value(props, key) == property_value(props.skip(i + 1), key),
{
    assert(props.skip(i).drop_first() =~= props.skip(i + 1));
}

fn find_property<'a>(props: &'a Vec<Property>, key: &str) -> (value: &'a str)
    ensures
        value@ == property_value(properties_view(props@), key@),
{
    let ghost all = properties_view(props@);
    let mut i: usize = 0;
    assert(all.skip(0) =~= all);
    while i < props.len()
        invariant
            i <= props.len(),
            all == properties_view(props@),
            property_value(all, key@) == property_value(all.skip(i as int), key@),
        decreases props.len() - i,
    {
        if str_eq(props[i].name.as_str(), key) {
            return props[i].value.as_str();
        }
        proof {
            lemma_property_value_skip(all, key@, i as int);
        }
        i += 1;
    }
    proof {
        reveal_strlit("");
    }
    ""
}

/// The value of property `key` of a change; empty when the change has no such
/// property.
pub fn get_event_property<'a>(ev: &'a EventInfo, key: &str) -> (value: &'a str)
    ensures
        value@ == property_value(ev@, key@),
{
    find_property(&ev.device.properties, key)
}

/// The value of property `key` of a device; empty when the device has no such
/// property.
pub fn get_device_property<'a>(dev: &'a DeviceInfo, key: &str) -> (value: &'a str)
    ensures
        value@ == property_value(dev@, key@),
{
    find_property(&dev.properties, key)
}

} // verus!
