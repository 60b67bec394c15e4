//! Turning the raw properties a platform reports for a serial device into a
//! device record, and the startup enumeration that seeds the identity cache.
//!
//! The manufacturer and product strings come from a fallback chain: the
//! escape-encoded property if it decodes, else the plain property with
//! underscores read as spaces, else the hardware-database property. Escape
//! decoding is done by the `unescaper` crate behind a trusted wrapper.

use vstd::prelude::*;

use vstd::string::StringExecFns;

use crate::cache::IdentityCache;
use crate::device::{DeviceInfo, DeviceInfoView};

verus! {

/// One property a platform reports for a device: a name and a value, both
/// plain text.
#[derive(Debug)]
pub struct Property {
    /// The property name, e.g. `ID_VENDOR_ID`.
    pub name: String,
    /// The property value.
    pub value: String,
}

/// The mathematical value of a `Property`.
pub struct PropertyView {
    pub name: Seq<char>,
    pub value: Seq<char>,
}

impl View for Property {
    type V = PropertyView;

    open spec fn view(&self) -> PropertyView {
        PropertyView { name: self.name@, value: self.value@ }
    }
}

/// One device as the platform enumeration or notification reports it: the
/// port name and every property attached to the device node.
#[derive(Debug)]
pub struct RawPort {
    /// The port name, e.g. `/dev/ttyACM0`.
    pub port: String,
    /// All properties reported for the device.
    pub properties: Vec<Property>,
}

/// The mathematical value of a `RawPort`.
pub struct RawPortView {
    pub port: Seq<char>,
    pub properties: Seq<PropertyView>,
}

impl View for RawPort {
    type V = RawPortView;

    open spec fn view(&self) -> RawPortView {
        RawPortView {
            port: self.port@,
            properties: self.properties@.map_values(|p: Property| p@),
        }
    }
}

/// The value of the first property named `name`, if any.
pub open spec fn prop_of(props: Seq<PropertyView>, name: Seq<char>) -> Option<Seq<char>>
    decreases props.len(),
{
    if props.len() == 0 {
        None
    } else if props.first().name == name {
        Some(props.first().value)
    } else {
        prop_of(props.drop_first(), name)
    }
}

/// Every underscore read as a space, as the plain vendor and model properties
/// encode their text.
pub open spec fn underscores_to_spaces(s: Seq<char>) -> Seq<char> {
    s.map_values(|c: char| if c == '_' { ' ' } else { c })
}

/// What `unescaper::unescape` yields on a text: its escape sequences written
/// out as literal characters, or nothing where an escape is malformed. A
/// function of the characters alone.
pub uninterp spec fn unescaped_of(s: Seq<char>) -> Option<Seq<char>>;

/// Relies on `unescaper::unescape`: decodes backslash escape sequences, and
/// returns a text without a backslash unchanged; fails only on a malformed
/// escape. The result depends on the characters alone.
#[verifier::external_body]
fn unescape_text(s: &str) -> (r: Option<String>)
    ensures
        r.deep_view() == unescaped_of(s@),
        (forall|i: int| 0 <= i < s@.len() ==> s@[i] != '\\') ==> r.deep_view() == Some(s@),
{
    unescaper::unescape(s).ok()
}

/// Relies on `str::replace` with a single-character pattern: every occurrence
/// of the pattern character is replaced by the replacement text, here one
/// space for each underscore.
#[verifier::external_body]
fn replace_underscores(s: &str) -> (r: String)
    ensures
        r@ == underscores_to_spaces(s@),
{
    s.replace('_', " ")
}

/// The manufacturer text for a device: the escape-encoded vendor property if
/// it decodes, else the plain vendor property with underscores as spaces,
/// else the vendor name from the hardware database.
pub open spec fn vendor_text_of(props: Seq<PropertyView>) -> Option<Seq<char>> {
    let enc = match prop_of(props, "ID_VENDOR_ENC"@) {
        Some(v) => unescaped_of(v),
        None => None,
    };
    if enc is Some {
        enc
    } else {
        match prop_of(props, "ID_VENDOR"@) {
            Some(v) => Some(underscores_to_spaces(v)),
            None => prop_of(props, "ID_VENDOR_FROM_DATABASE"@),
        }
    }
}

/// The product text for a device, by the same fallback chain as the
/// manufacturer text, over the model properties.
pub open spec fn model_text_of(props: Seq<PropertyView>) -> Option<Seq<char>> {
    let enc = match prop_of(props, "ID_MODEL_ENC"@) {
        Some(v) => unescaped_of(v),
        None => None,
    };
    if enc is Some {
        enc
    } else {
        match prop_of(props, "ID_MODEL"@) {
            Some(v) => Some(underscores_to_spaces(v)),
            None => prop_of(props, "ID_MODEL_FROM_DATABASE"@),
        }
    }
}

/// The device record that a port with these properties is described by.
pub open spec fn device_info_of(port: Seq<char>, props: Seq<PropertyView>) -> DeviceInfoView {
    DeviceInfoView {
        port: port,
        vid: prop_of(props, "ID_VENDOR_ID"@),
        pid: prop_of(props, "ID_MODEL_ID"@),
        serial: prop_of(props, "ID_SERIAL_SHORT"@),
        manufacturer: vendor_text_of(props),
        product: model_text_of(props),
    }
}

fn find_property(props: &Vec<Property>, name: &String) -> (r: Option<String>)
    ensures
        r.deep_view() == prop_of(props@.map_values(|p: Property| p@), name@),
{
    let ghost view = props@.map_values(|p: Property| p@);
    proof {
        assert(view.skip(0) =~= view);
    }
    let n = props.len();
    let mut i: usize = 0;
    while i < n
        invariant
            n == props@.len(),
            i <= n,
            view == props@.map_values(|p: Property| p@),
            prop_of(view, name@) == prop_of(view.skip(i as int), name@),
        decreases n - i,
    {
        proof {
            assert(view.skip(i as int).first() == view[i as int]);
            assert(view.skip(i as int).drop_first() =~= view.skip(i as int + 1));
        }
        if props[i].name == *name {
            return Some(props[i].value.clone());
        }
        i = i + 1;
    }
    proof {
        assert(view.skip(n as int).len() == 0);
    }
    None
}

/// Build the device record for one port from the platform's property list:
/// the identifiers are taken as reported, the manufacturer and product text
/// resolved through the escape-decoding fallback chain.
pub fn read_device_info(port: String, props: &Vec<Property>) -> (r: DeviceInfo)
    ensures
        r@ == device_info_of(port@, props@.map_values(|p: Property| p@)),
{
    let vid = find_property(props, &String::from_str("ID_VENDOR_ID"));
    let pid = find_property(props, &String::from_str("ID_MODEL_ID"));
    let serial = find_property(props, &String::from_str("ID_SERIAL_SHORT"));
    let manufacturer = {
        let enc = match find_property(props, &String::from_str("ID_VENDOR_ENC")) {
            Some(v) => unescape_text(v.as_str()),
            None => None,
        };
        match enc {
            Some(u) => Some(u),
            None => match find_property(props, &String::from_str("ID_VENDOR")) {
                Some(v) => Some(replace_underscores(v.as_str())),
                None => find_property(props, &String::from_str("ID_VENDOR_FROM_DATABASE")),
            },
        }
    };
    let product = {
        let enc = match find_property(props, &String::from_str("ID_MODEL_ENC")) {
            Some(v) => unescape_text(v.as_str()),
            None => None,
        };
        match enc {
            Some(u) => Some(u),
            None => match find_property(props, &String::from_str("ID_MODEL")) {
                Some(v) => Some(replace_underscores(v.as_str())),
                None => find_property(props, &String::from_str("ID_MODEL_FROM_DATABASE")),
            },
        }
    };
    DeviceInfo { port, vid, pid, serial, manufacturer, product }
}

/// The mapping from port to device record that an enumeration stands for, a
/// later entry for the same port overriding an earlier one.
pub open spec fn scan_map(ports: Seq<RawPortView>) -> Map<Seq<char>, DeviceInfoView>
    decreases ports.len(),
{
    if ports.len() == 0 {
        Map::empty()
    } else {
        scan_map(ports.drop_last()).insert(
            ports.last().port,
            device_info_of(ports.last().port, ports.last().properties),
        )
    }
}

/// The startup enumeration: the identity cache holding, for every port the
/// platform reported, the device record built from its properties.
pub fn scan(ports: Vec<RawPort>) -> (r: IdentityCache)
    ensures
        r.wf(),
        r@ == scan_map(ports@.map_values(|p: RawPort| p@)),
{
    let ghost view = ports@.map_values(|p: RawPort| p@);
    let mut found = IdentityCache::new();
    let n = ports.len();
    let mut i: usize = 0;
    while i < n
        invariant
            n == ports@.len(),
            i <= n,
            view == ports@.map_values(|p: RawPort| p@),
            found.wf(),
            found@ == scan_map(view.subrange(0, i as int)),
        decreases n - i,
    {
        let entry = &ports[i];
        let info = read_device_info(entry.port.clone(), &entry.properties);
        found.insert(entry.port.clone(), info);
        proof {
            let upto = view.subrange(0, i as int + 1);
            assert(upto.drop_last() =~= view.subrange(0, i as int));
            assert(upto.last() == view[i as int]);
        }
        i = i + 1;
    }
    proof {
        assert(view.subrange(0, n as int) =~= view);
    }
    found
}

} // verus!
