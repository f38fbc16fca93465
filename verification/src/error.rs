//! The ways in which an operation on a relay board fails.

use vstd::prelude::*;

verus! {

/// Why an operation on a relay board failed.
///
/// No failure is retried: every hardware operation is attempted once, and the
/// error goes to the immediate caller.
#[derive(Debug, Clone, PartialEq, Eq)]
pub enum UsbRelayError {
    /// The host's HID layer failed to open a device or to complete a transfer.
    Transport,
    /// The device has the relay boards' vendor and product identity, but its
    /// product string is none that this crate knows, or it advertises more
    /// relays than one state byte can hold.
    UnsupportedProduct,
    /// The product string has the expected prefix, but what follows it is not
    /// a decimal number.
    Parse,
    /// A transfer moved `actual` bytes where the protocol fixes `expected`.
    Protocol { expected: usize, actual: usize },
    /// The serial-number field of a feature report is not valid UTF-8.
    Encoding,
    /// The board with this serial number has `relay_count` relays, and
    /// `index` names none of them.
    IndexOutOfRange { index: u8, serial_number: String, relay_count: usize },
    /// No discovered board has the serial number asked for.
    NotFound,
    /// More than one discovered board has the serial number asked for.
    AmbiguousIdentity,
}

/// Mathematical model of a [`UsbRelayError`]: the same cases, with text as a
/// sequence of characters.
pub enum UsbRelayErrorView {
    Transport,
    UnsupportedProduct,
    Parse,
    Protocol { expected: usize, actual: usize },
    Encoding,
    IndexOutOfRange { index: u8, serial_number: Seq<char>, relay_count: usize },
    NotFound,
    AmbiguousIdentity,
}

impl View for UsbRelayError {
    type V = UsbRelayErrorView;

    open spec fn view(&self) -> UsbRelayErrorView {
        match *self {
            UsbRelayError::Transport => UsbRelayErrorView::Transport,
            UsbRelayError::UnsupportedProduct => UsbRelayErrorView::UnsupportedProduct,
            UsbRelayError::Parse => UsbRelayErrorView::Parse,
            UsbRelayError::Protocol { expected, actual } => UsbRelayErrorView::Protocol {
                expected,
                actual,
            },
            UsbRelayError::Encoding => UsbRelayErrorView::Encoding,
            UsbRelayError::IndexOutOfRange {
                index,
                serial_number,
                relay_count,
            } => UsbRelayErrorView::IndexOutOfRange {
                index,
                serial_number: serial_number@,
                relay_count,
            },
            UsbRelayError::NotFound => UsbRelayErrorView::NotFound,
            UsbRelayError::AmbiguousIdentity => UsbRelayErrorView::AmbiguousIdentity,
        }
    }
}

} // verus!
