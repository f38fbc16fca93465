//! What the host's HID layer reports back.
//!
//! The crate never touches a device. Whoever drives it performs the blocking
//! calls (enumerate, open, read a feature report, write an output report) and
//! hands their outcomes over in the types of this module.

use vstd::prelude::*;

verus! {

/// Size in bytes of every report that is exchanged with a board.
pub const REPORT_SIZE: usize = 9;

/// USB vendor identity of the relay boards.
pub const USB_RELAY_VID: u16 = 0x16c0;

/// USB product identity of the relay boards.
pub const USB_RELAY_PID: u16 = 0x05df;

/// Outcome of one blocking transfer on an open device.
#[derive(Debug, Copy, Clone, PartialEq, Eq)]
pub enum Transfer {
    /// The host call returned an error.
    Failed,
    /// The host call returned, and reported this many bytes as moved.
    Completed(usize),
}

/// The feature-report exchange with one open device: the buffer as it stood
/// after the call, and what the call reported.
#[derive(Debug, Copy, Clone, PartialEq, Eq)]
pub struct FeatureReply {
    pub data: [u8; 9],
    pub transfer: Transfer,
}

/// Everything the transport yielded for one attached device during discovery.
#[derive(Debug, Clone, PartialEq, Eq)]
pub struct DeviceProbe {
    pub vendor_id: u16,
    pub product_id: u16,
    /// The product descriptor string, where the device has a readable one.
    pub product: Option<String>,
    /// The feature-report exchange, where the device could be opened.
    pub features: Option<FeatureReply>,
}

/// What the host's HID layer yielded when it was asked for the attached
/// devices.
#[derive(Debug, Clone, PartialEq, Eq)]
pub enum Enumeration {
    /// The HID layer could not be initialised.
    Unavailable,
    /// The probes of all attached devices, in the order of enumeration.
    Devices(Vec<DeviceProbe>),
}

impl DeviceProbe {
    /// Whether the device carries the vendor and product identity of the
    /// relay boards.
    pub open spec fn spec_is_relay_board(&self) -> bool {
        self.vendor_id == USB_RELAY_VID && self.product_id == USB_RELAY_PID
    }

    /// Whether the device carries the vendor and product identity of the
    /// relay boards. Discovery passes over every device that does not.
    #[verifier::when_used_as_spec(spec_is_relay_board)]
    pub fn is_relay_board(&self) -> (matches: bool)
        ensures
            matches == self.spec_is_relay_board(),
    {
        self.vendor_id == USB_RELAY_VID && self.product_id == USB_RELAY_PID
    }
}

} // verus!
