//! The reports that travel between host and board: the hardware's command
//! vocabulary, the request for a feature report, and the command that
//! switches one relay.

use vstd::prelude::*;
use crate::transport::REPORT_SIZE;
use crate::usbrelay::UsbRelayState;

verus! {

/// Width in bytes of the serial-number field at the start of a feature report.
pub const SERIAL_NUMBER_SIZE: usize = 5;

/// Offset of the relay-state bitmap within a feature report.
pub const STATE_OFFSET: usize = 7;

/// The commands that the hardware understands.
#[derive(Debug, Copy, Clone, PartialEq, Eq, Structural)]
pub enum UsbRelayCommand {
    ReadFeatures,
    SetSerialNumber,
    TurnOff,
    TurnOn,
}

impl UsbRelayCommand {
    /// The byte that stands for the command on the wire.
    pub open spec fn spec_opcode(self) -> u8 {
        match self {
            UsbRelayCommand::ReadFeatures => 0x01,
            UsbRelayCommand::SetSerialNumber => 0xfa,
            UsbRelayCommand::TurnOff => 0xfd,
            UsbRelayCommand::TurnOn => 0xff,
        }
    }

    /// The byte that stands for the command on the wire.
    #[verifier::when_used_as_spec(spec_opcode)]
    pub fn opcode(self) -> (code: u8)
        ensures
            code == self.spec_opcode(),
    {
        match self {
            UsbRelayCommand::ReadFeatures => 0x01,
            UsbRelayCommand::SetSerialNumber => 0xfa,
            UsbRelayCommand::TurnOff => 0xfd,
            UsbRelayCommand::TurnOn => 0xff,
        }
    }

    /// The command that brings a relay into `state`.
    pub open spec fn spec_switching_to(state: UsbRelayState) -> UsbRelayCommand {
        match state {
            UsbRelayState::On => UsbRelayCommand::TurnOn,
            UsbRelayState::Off => UsbRelayCommand::TurnOff,
        }
    }

    /// The command that brings a relay into `state`.
    #[verifier::when_used_as_spec(spec_switching_to)]
    pub fn switching_to(state: UsbRelayState) -> (command: UsbRelayCommand)
        ensures
            command == Self::spec_switching_to(state),
    {
        match state {
            UsbRelayState::On => UsbRelayCommand::TurnOn,
            UsbRelayState::Off => UsbRelayCommand::TurnOff,
        }
    }
}

/// The report that asks a board for its features: the `ReadFeatures` opcode
/// in byte 0, zeros elsewhere.
pub open spec fn features_request_bytes() -> Seq<u8> {
    Seq::new(
        REPORT_SIZE as nat,
        |i: int|
            if i == 0 {
                UsbRelayCommand::ReadFeatures.spec_opcode()
            } else {
                0u8
            },
    )
}

/// The report that switches the relay at `relay_index` to `state`: the
/// opcode in byte 1, the relay's number on the wire in byte 2, zeros
/// elsewhere. The wire counts relays from 1.
pub open spec fn switch_report_bytes(relay_index: u8, state: UsbRelayState) -> Seq<u8> {
    Seq::new(
        REPORT_SIZE as nat,
        |i: int|
            if i == 1 {
                UsbRelayCommand::spec_switching_to(state).spec_opcode()
            } else if i == 2 {
                (relay_index + 1) as u8
            } else {
                0u8
            },
    )
}

/// Builds the buffer to hand to the transport when reading a board's feature
/// report.
pub fn features_request() -> (buf: [u8; 9])
    ensures
        buf@ == features_request_bytes(),
{
    let mut buf = [0u8;9];
    buf[0] = UsbRelayCommand::ReadFeatures.opcode();
    buf
}

/// Builds the output report that switches the relay at `relay_index` to
/// `state`.
pub fn switch_report(relay_index: u8, state: UsbRelayState) -> (buf: [u8; 9])
    requires
        relay_index < u8::MAX,
    ensures
        buf@ == switch_report_bytes(relay_index, state),
{
    let mut buf = [0u8;9];
    buf[1] = UsbRelayCommand::switching_to(state).opcode();
    buf[2] = relay_index + 1;
    buf
}

} // verus!
