//! What a device session decides when it talks to the device over raw USB
//! bulk endpoints: which of the attached devices is the target, which
//! bytes carry a command, and what the bytes that come back mean.

use vstd::prelude::*;
use vstd::string::*;
use vstd::utf8::encode_utf8;

use crate::session::TestOutcome;
use crate::text::{bytes_start_with, starts_with};

verus! {

/// An attached device, as the enumeration describes it.
#[derive(Debug)]
pub struct UsbDevice {
    pub vendor_id: u16,
    pub product_id: u16,
    pub serial: String,
}

/// The device that a session is after: one vendor, any of a few products,
/// and one serial number.
#[derive(Debug)]
pub struct UsbTarget {
    pub vendor_id: u16,
    pub product_ids: Vec<u16>,
    pub serial: String,
}

/// The meaning of the first bytes of a response.
#[derive(Clone, Copy, Debug, PartialEq, Eq, Structural)]
pub enum ResponseKind {
    /// The response begins with the success marker.
    Success,
    /// The response begins with the failure marker, and not with the
    /// success marker.
    Failure,
    /// The response begins with neither marker.
    Unknown,
}

/// The markers by which a response is told apart.
#[derive(Debug)]
pub struct ResponseMarkers {
    pub success: Vec<u8>,
    pub failure: Vec<u8>,
}

impl UsbTarget {
    /// Whether `device` is the target: the vendor is the target's, the
    /// product is one of the target's, and the serial number is the same.
    pub open spec fn selects(&self, device: &UsbDevice) -> bool {
        &&& device.vendor_id == self.vendor_id
        &&& self.product_ids@.contains(device.product_id)
        &&& device.serial@ == self.serial@
    }

    /// Whether the product identifier is one of the target's.
    fn lists_product(&self, product_id: u16) -> (listed: bool)
        ensures
            listed == self.product_ids@.contains(product_id),
    {
        let mut i: usize = 0;
        while i < self.product_ids.len()
            invariant
                i <= self.product_ids.len(),
                forall|k: int| 0 <= k < i ==> self.product_ids@[k] != product_id,
            decreases self.product_ids.len() - i,
        {
            if self.product_ids[i] == product_id {
                return true;
            }
            i = i + 1;
        }
        false
    }

    /// Whether `device` is the target.
    pub fn matches(&self, device: &UsbDevice) -> (selected: bool)
        ensures
            selected == self.selects(device),
    {
        device.vendor_id == self.vendor_id && self.lists_product(device.product_id)
            && device.serial == self.serial
    }

    /// The index of the first attached device that is the target, or `None`
    /// where none of them is.
    pub fn find(&self, devices: &Vec<UsbDevice>) -> (found: Option<usize>)
        ensures
            match found {
                Some(i) => i < devices.len() && self.selects(&devices@[i as int]) && forall|k: int|
                    0 <= k < i ==> !self.selects(&#[trigger] devices@[k]),
                None => forall|k: int|
                    0 <= k < devices.len() ==> !self.selects(&#[trigger] devices@[k]),
            },
    {
        let mut i: usize = 0;
        while i < devices.len()
            invariant
                i <= devices.len(),
                forall|k: int| 0 <= k < i ==> !self.selects(&#[trigger] devices@[k]),
            decreases devices.len() - i,
        {
            if self.matches(&devices[i]) {
                return Some(i);
            }
            i = i + 1;
        }
        None
    }

    /// Whether the target is among the attached devices.
    pub fn is_present(&self, devices: &Vec<UsbDevice>) -> (present: bool)
        ensures
            present == exists|k: int|
                0 <= k < devices.len() && self.selects(&#[trigger] devices@[k]),
    {
        self.find(devices).is_some()
    }
}

impl ResponseMarkers {
    /// The kind of a response: success where it begins with the success
    /// marker; else failure where it begins with the failure marker; else
    /// unknown.
    pub open spec fn kind_of(&self, response: Seq<u8>) -> ResponseKind {
        if starts_with(response, self.success@) {
            ResponseKind::Success
        } else if starts_with(response, self.failure@) {
            ResponseKind::Failure
        } else {
            ResponseKind::Unknown
        }
    }

    /// The kind of a response.
    pub fn classify(&self, response: &[u8]) -> (kind: ResponseKind)
        ensures
            kind == self.kind_of(response@),
    {
        if bytes_start_with(response, self.success.as_slice()) {
            ResponseKind::Success
        } else if bytes_start_with(response, self.failure.as_slice()) {
            ResponseKind::Failure
        } else {
            ResponseKind::Unknown
        }
    }

    /// The outcome of a test that was answered with `response`: only a
    /// success unlocks, and a response of unknown kind counts as a
    /// rejection.
    pub fn judge(&self, response: &[u8]) -> (outcome: TestOutcome)
        ensures
            outcome == if self.kind_of(response@) == ResponseKind::Success {
                TestOutcome::Unlocked
            } else {
                TestOutcome::Rejected
            },
    {
        match self.classify(response) {
            ResponseKind::Success => TestOutcome::Unlocked,
            ResponseKind::Failure => TestOutcome::Rejected,
            ResponseKind::Unknown => TestOutcome::Rejected,
        }
    }
}

/// The bytes that carry a command: the bytes of the verb and then of the
/// argument, with nothing before, between or after them.
pub fn command_frame(verb: &str, argument: &str) -> (frame: Vec<u8>)
    ensures
        frame@ == encode_utf8(verb@ + argument@),
{
    let mut command = String::from_str(verb);
    command.append(argument);
    command.as_str().as_bytes_vec()
}

} // verus!
