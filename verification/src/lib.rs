//! Protocol engine for USB relay boards that speak the HID feature-report
//! protocol of the `USBRelay` product family.
//!
//! The crate performs no I/O. It decides what is sent to a board and what a
//! board's replies mean; the caller makes the blocking calls into the host's
//! HID layer and hands their outcomes over.
//!
//! Discovery: the caller enumerates the attached devices and, for each
//! device that [`transport::DeviceProbe::is_relay_board`] and
//! [`product::relay_count`] accept, opens it and reads a feature report into
//! the buffer of [`report::features_request`]. What came back goes into a
//! [`transport::Enumeration`], from which
//! [`usbrelay::UsbRelayBoard::find_relays`] builds the boards.
//!
//! Switching: [`control::select_board`] picks a board by its serial number,
//! [`usbrelay::UsbRelayBoard::set_state_command`] gives the report to write
//! to it, and [`usbrelay::UsbRelayBoard::set_state`] or
//! [`control::set_relay_state`] records the outcome of the write.

pub mod bitmap;
pub mod control;
pub mod error;
pub mod product;
pub mod report;
pub mod text;
pub mod transport;
pub mod usbrelay;
