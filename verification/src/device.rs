//! The data model: device records, events, and the error carried by the queue.

use vstd::prelude::*;

verus! {

/// Descriptive metadata for one serial port and its USB identity.
///
/// Immutable once constructed; `port` is the stable key used to correlate an
/// attach notification with the matching detach notification.
#[derive(Debug)]
pub struct DeviceInfo {
    /// The port name, e.g. `COM3` or `/dev/ttyACM0`.
    pub port: String,
    /// Vendor ID.
    pub vid: Option<String>,
    /// Product ID.
    pub pid: Option<String>,
    /// Serial number.
    pub serial: Option<String>,
    /// Manufacturer string (arbitrary text).
    pub manufacturer: Option<String>,
    /// Product string (arbitrary text).
    pub product: Option<String>,
}

/// The mathematical value of a `DeviceInfo`: each field as a sequence of characters.
pub struct DeviceInfoView {
    pub port: Seq<char>,
    pub vid: Option<Seq<char>>,
    pub pid: Option<Seq<char>>,
    pub serial: Option<Seq<char>>,
    pub manufacturer: Option<Seq<char>>,
    pub product: Option<Seq<char>>,
}

impl View for DeviceInfo {
    type V = DeviceInfoView;

    open spec fn view(&self) -> DeviceInfoView {
        DeviceInfoView {
            port: self.port@,
            vid: self.vid.deep_view(),
            pid: self.pid.deep_view(),
            serial: self.serial.deep_view(),
            manufacturer: self.manufacturer.deep_view(),
            product: self.product.deep_view(),
        }
    }
}

/// Whether a USB serial port was plugged into or unplugged from the system.
#[derive(Clone, Copy, Debug, PartialEq, Eq, Structural)]
pub enum EventType {
    /// A USB serial port device has been plugged into the system.
    Add,
    /// A USB serial port device has been unplugged from the system.
    Remove,
}

/// An attach or detach notification delivered to the subscriber.
#[derive(Debug)]
pub struct EventInfo {
    /// The port name the notification is about.
    pub port: String,
    /// Metadata about the port.
    pub device: DeviceInfo,
    /// Whether the port was attached or detached.
    pub event: EventType,
}

/// The mathematical value of an `EventInfo`.
pub struct EventInfoView {
    pub port: Seq<char>,
    pub device: DeviceInfoView,
    pub event: EventType,
}

impl View for EventInfo {
    type V = EventInfoView;

    open spec fn view(&self) -> EventInfoView {
        EventInfoView { port: self.port@, device: self.device@, event: self.event }
    }
}

/// An I/O-kind failure reported by the platform event source, delivered to the
/// subscriber as a discrete error item without ending the subscription.
#[derive(Debug)]
pub struct IoError {
    /// Human-readable description of the failure.
    pub message: String,
}

impl View for IoError {
    type V = Seq<char>;

    open spec fn view(&self) -> Seq<char> {
        self.message@
    }
}

fn clone_opt_string(s: &Option<String>) -> (r: Option<String>)
    ensures
        r == *s,
{
    match s {
        Some(v) => Some(v.clone()),
        None => None,
    }
}

impl DeviceInfo {
    /// An owned copy of the record, equal to the original field for field.
    pub fn duplicate(&self) -> (r: DeviceInfo)
        ensures
            r == *self,
    {
        DeviceInfo {
            port: self.port.clone(),
            vid: clone_opt_string(&self.vid),
            pid: clone_opt_string(&self.pid),
            serial: clone_opt_string(&self.serial),
            manufacturer: clone_opt_string(&self.manufacturer),
            product: clone_opt_string(&self.product),
        }
    }
}

} // verus!
