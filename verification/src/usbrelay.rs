//! The relay board: its state model, discovery from what the transport
//! reported, and the switching of a relay.

use vstd::prelude::*;
use vstd::utf8::*;
use crate::bitmap::{
    bitmap_of_states, decode_states, encode_states, states_of_bitmap, MAX_RELAYS,
};
use crate::error::{UsbRelayError, UsbRelayErrorView};
use crate::product::{advertised_relay_count, relay_count};
use crate::report::{switch_report, switch_report_bytes, SERIAL_NUMBER_SIZE, STATE_OFFSET};
use crate::text::{append_decimal, decimal_text, string_from_utf8};
use crate::transport::{DeviceProbe, Enumeration, FeatureReply, Transfer, REPORT_SIZE};

verus! {

/// State of a single relay.
#[derive(Debug, Copy, Clone, PartialEq, Eq, Structural)]
pub enum UsbRelayState {
    On,
    Off,
}

impl UsbRelayState {
    /// The state that a bit of the hardware's bitmap stands for: a set bit is `On`.
    pub open spec fn of_bit(set: bool) -> UsbRelayState {
        if set {
            UsbRelayState::On
        } else {
            UsbRelayState::Off
        }
    }

    /// The state in words, as a command line takes it: `on` or `off`.
    pub open spec fn spec_as_str(&self) -> Seq<char> {
        match *self {
            UsbRelayState::On => "on"@,
            UsbRelayState::Off => "off"@,
        }
    }

    /// The state in words, as a command line takes it: `on` or `off`.
    pub fn as_str(&self) -> (text: &'static str)
        ensures
            text@ == self.spec_as_str(),
    {
        match self {
            UsbRelayState::On => "on",
            UsbRelayState::Off => "off",
        }
    }

    /// The name of the state as a listing of a board shows it: `On` or `Off`.
    pub open spec fn spec_name(&self) -> Seq<char> {
        match *self {
            UsbRelayState::On => "On"@,
            UsbRelayState::Off => "Off"@,
        }
    }

    /// The name of the state as a listing of a board shows it: `On` or `Off`.
    pub fn name(&self) -> (text: &'static str)
        ensures
            text@ == self.spec_name(),
    {
        match self {
            UsbRelayState::On => "On",
            UsbRelayState::Off => "Off",
        }
    }

    /// Whether the relay is switched on.
    pub fn is_on(&self) -> (on: bool)
        ensures
            on == (*self == UsbRelayState::On),
    {
        match self {
            UsbRelayState::On => true,
            UsbRelayState::Off => false,
        }
    }
}

/// One relay board, as it was decoded from its feature report and as the
/// commands acknowledged since then have changed it.
///
/// A board comes out of discovery only. The number of its relays is fixed
/// from then on and is at most [`MAX_RELAYS`]; its serial number takes
/// [`SERIAL_NUMBER_SIZE`] bytes on the wire.
#[derive(Debug, PartialEq, Eq)]
pub struct UsbRelayBoard {
    serial_number: String,
    relay_states: Vec<UsbRelayState>,
}

/// Mathematical model of a [`UsbRelayBoard`].
pub struct UsbRelayBoardView {
    pub serial_number: Seq<char>,
    pub relay_states: Seq<UsbRelayState>,
}

impl UsbRelayBoardView {
    /// What holds of every board: it has at most [`MAX_RELAYS`] relays, and
    /// its serial number is [`SERIAL_NUMBER_SIZE`] bytes of UTF-8.
    pub open spec fn wf(self) -> bool {
        &&& self.relay_states.len() <= MAX_RELAYS
        &&& encode_utf8(self.serial_number).len() == SERIAL_NUMBER_SIZE
    }
}

impl View for UsbRelayBoard {
    type V = UsbRelayBoardView;

    closed spec fn view(&self) -> UsbRelayBoardView {
        UsbRelayBoardView {
            serial_number: self.serial_number@,
            relay_states: self.relay_states@,
        }
    }
}

/// The models of a sequence of boards, in the same order.
pub open spec fn board_views(boards: Seq<UsbRelayBoard>) -> Seq<UsbRelayBoardView> {
    Seq::new(boards.len(), |i: int| boards[i]@)
}

/// The serial-number field of a feature report.
pub open spec fn serial_field(data: Seq<u8>) -> Seq<u8> {
    data.subrange(0, SERIAL_NUMBER_SIZE as int)
}

/// What a feature-report exchange says about a board: its serial number and
/// its state byte, or the reason why the exchange is turned down:
/// `Transport` where the transfer failed, `Protocol` where it did not
/// move a whole report, `Encoding` where the serial-number field is not
/// valid UTF-8.
pub open spec fn features_of(reply: FeatureReply) -> Result<(Seq<char>, u8), UsbRelayErrorView> {
    match reply.transfer {
        Transfer::Failed => Err(UsbRelayErrorView::Transport),
        Transfer::Completed(bytes_read) => if bytes_read != REPORT_SIZE {
            Err(UsbRelayErrorView::Protocol { expected: REPORT_SIZE, actual: bytes_read })
        } else if !valid_utf8(serial_field(reply.data@)) {
            Err(UsbRelayErrorView::Encoding)
        } else {
            Ok((decode_utf8(serial_field(reply.data@)), reply.data@[STATE_OFFSET as int]))
        },
    }
}

/// The board that a probe of one relay device describes, or the first
/// reason why it describes none. The product string is judged first, then
/// whether the device could be opened, then the feature report.
pub open spec fn board_of_probe(probe: DeviceProbe) -> Result<
    UsbRelayBoardView,
    UsbRelayErrorView,
> {
    match probe.product {
        None => Err(UsbRelayErrorView::Transport),
        Some(product) => match advertised_relay_count(product@) {
            Err(e) => Err(e),
            Ok(count) => match probe.features {
                None => Err(UsbRelayErrorView::Transport),
                Some(reply) => match features_of(reply) {
                    Err(e) => Err(e),
                    Ok((serial_number, bitmap)) => Ok(
                        UsbRelayBoardView {
                            serial_number,
                            relay_states: states_of_bitmap(bitmap, count),
                        },
                    ),
                },
            },
        },
    }
}

/// The outcome of discovery over the probes of all attached devices, in
/// the order of enumeration. Devices without the relay boards' identity are
/// passed over. The first relay device that yields no board fails the whole
/// discovery with its error; otherwise there is one board for each relay
/// device, in order.
pub open spec fn discovered(probes: Seq<DeviceProbe>) -> Result<
    Seq<UsbRelayBoardView>,
    UsbRelayErrorView,
>
    decreases probes.len(),
{
    if probes.len() == 0 {
        Ok(Seq::empty())
    } else {
        match discovered(probes.drop_last()) {
            Err(e) => Err(e),
            Ok(boards) => if !probes.last().spec_is_relay_board() {
                Ok(boards)
            } else {
                match board_of_probe(probes.last()) {
                    Err(e) => Err(e),
                    Ok(board) => Ok(boards.push(board)),
                }
            },
        }
    }
}

/// The error for a relay index that names no relay of `board`.
pub open spec fn index_out_of_range(
    board: UsbRelayBoardView,
    relay_index: u8,
) -> UsbRelayErrorView {
    UsbRelayErrorView::IndexOutOfRange {
        index: relay_index,
        serial_number: board.serial_number,
        relay_count: board.relay_states.len() as usize,
    }
}

/// The report to write in order to switch relay `relay_index` of `board` to
/// `state`, or `IndexOutOfRange` where the board has no such relay.
pub open spec fn switch_command(
    board: UsbRelayBoardView,
    relay_index: u8,
    state: UsbRelayState,
) -> Result<Seq<u8>, UsbRelayErrorView> {
    if relay_index >= board.relay_states.len() {
        Err(index_out_of_range(board, relay_index))
    } else {
        Ok(switch_report_bytes(relay_index, state))
    }
}

/// The board after an attempt to switch relay `relay_index` to `state`,
/// given what the transport reported of the write, or the reason why the
/// board stays as it is: `IndexOutOfRange` where the board has no such
/// relay, whatever was written; `Transport` where the write failed;
/// `Protocol` where it did not move a whole report.
pub open spec fn set_state_outcome(
    board: UsbRelayBoardView,
    relay_index: u8,
    state: UsbRelayState,
    written: Transfer,
) -> Result<UsbRelayBoardView, UsbRelayErrorView> {
    if relay_index >= board.relay_states.len() {
        Err(index_out_of_range(board, relay_index))
    } else {
        match written {
            Transfer::Failed => Err(UsbRelayErrorView::Transport),
            Transfer::Completed(bytes_written) => if bytes_written != REPORT_SIZE {
                Err(UsbRelayErrorView::Protocol { expected: REPORT_SIZE, actual: bytes_written })
            } else {
                Ok(
                    UsbRelayBoardView {
                        serial_number: board.serial_number,
                        relay_states: board.relay_states.update(relay_index as int, state),
                    },
                )
            },
        }
    }
}

/// The entries of a board's listing for its relays: for each relay a space,
/// its index in decimal, a colon and the name of its state.
pub open spec fn relay_entries(states: Seq<UsbRelayState>) -> Seq<char>
    decreases states.len(),
{
    if states.len() == 0 {
        Seq::empty()
    } else {
        relay_entries(states.drop_last()) + " "@ + decimal_text((states.len() - 1) as nat) + ":"@
            + states.last().spec_name()
    }
}

/// The listing of a board: its serial number, then an entry for each relay.
pub open spec fn listing(board: UsbRelayBoardView) -> Seq<char> {
    board.serial_number + relay_entries(board.relay_states)
}

/// The outcome of discovery: `Transport` where the HID layer could not be
/// initialised, and what [`discovered`] says of the attached devices
/// otherwise.
pub open spec fn discovery_outcome(enumeration: Enumeration) -> Result<
    Seq<UsbRelayBoardView>,
    UsbRelayErrorView,
> {
    match enumeration {
        Enumeration::Unavailable => Err(UsbRelayErrorView::Transport),
        Enumeration::Devices(probes) => discovered(probes@),
    }
}

impl UsbRelayBoard {
    #[verifier::type_invariant]
    spec fn well_formed(&self) -> bool {
        self@.wf()
    }

    /// Decodes a feature-report exchange into a board's serial number and
    /// its state byte.
    pub fn read_features(reply: &FeatureReply) -> (features: Result<(String, u8), UsbRelayError>)
        ensures
            match features {
                Ok((serial_number, bitmap)) => features_of(*reply) == Ok::<
                    (Seq<char>, u8),
                    UsbRelayErrorView,
                >((serial_number@, bitmap)),
                Err(e) => features_of(*reply) == Err::<(Seq<char>, u8), UsbRelayErrorView>(e@),
            },
            reply.transfer matches Transfer::Completed(bytes_read) ==> (bytes_read < REPORT_SIZE
                ==> {
                &&& features matches Err(e)
                &&& e@ == (UsbRelayErrorView::Protocol {
                    expected: REPORT_SIZE,
                    actual: bytes_read,
                })
            }),
    {
        let bytes_read = match reply.transfer {
            Transfer::Failed => {
                return Err(UsbRelayError::Transport);
            },
            Transfer::Completed(bytes_read) => bytes_read,
        };
        if bytes_read != REPORT_SIZE {
            return Err(UsbRelayError::Protocol { expected: REPORT_SIZE, actual: bytes_read });
        }
        let mut field: Vec<u8> = Vec::new();
        let mut at: usize = 0;
        while at < SERIAL_NUMBER_SIZE
            invariant
                at <= SERIAL_NUMBER_SIZE,
                field@ == reply.data@.subrange(0, at as int),
            decreases SERIAL_NUMBER_SIZE - at,
        {
            field.push(reply.data[at]);
            at = at + 1;
        }
        match string_from_utf8(field) {
            None => Err(UsbRelayError::Encoding),
            Some(serial_number) => Ok((serial_number, reply.data[STATE_OFFSET])),
        }
    }

    /// Builds the board that the probe of one relay device describes.
    pub fn from_probe(probe: &DeviceProbe) -> (board: Result<UsbRelayBoard, UsbRelayError>)
        ensures
            match board {
                Ok(b) => board_of_probe(*probe) == Ok::<UsbRelayBoardView, UsbRelayErrorView>(b@),
                Err(e) => board_of_probe(*probe) == Err::<UsbRelayBoardView, UsbRelayErrorView>(
                    e@,
                ),
            },
            board matches Ok(b) ==> b@.wf(),
    {
        let product = match &probe.product {
            None => {
                return Err(UsbRelayError::Transport);
            },
            Some(product) => product,
        };
        let count = match relay_count(product.as_str()) {
            Err(e) => {
                return Err(e);
            },
            Ok(count) => count,
        };
        let reply = match &probe.features {
            None => {
                return Err(UsbRelayError::Transport);
            },
            Some(reply) => reply,
        };
        let (serial_number, bitmap) = match Self::read_features(reply) {
            Err(e) => {
                return Err(e);
            },
            Ok(features) => features,
        };
        let relay_states = decode_states(bitmap, count);
        proof {
            lemma_board_shape(*probe);
        }
        Ok(UsbRelayBoard { serial_number, relay_states })
    }

    /// Discovers the relay boards among the attached devices, from what the
    /// transport reported: whether the HID layer came up, and the probe of
    /// each device in the order of enumeration.
    ///
    /// One relay device that yields no board fails the whole discovery: the
    /// error is that of the first such device, and no board is returned.
    pub fn find_relays(enumeration: &Enumeration) -> (relays: Result<
        Vec<UsbRelayBoard>,
        UsbRelayError,
    >)
        ensures
            match relays {
                Ok(boards) => discovery_outcome(*enumeration) == Ok::<
                    Seq<UsbRelayBoardView>,
                    UsbRelayErrorView,
                >(board_views(boards@)),
                Err(e) => discovery_outcome(*enumeration) == Err::<
                    Seq<UsbRelayBoardView>,
                    UsbRelayErrorView,
                >(e@),
            },
    {
        let probes = match enumeration {
            Enumeration::Unavailable => {
                return Err(UsbRelayError::Transport);
            },
            Enumeration::Devices(probes) => probes,
        };
        let mut usb_relays: Vec<UsbRelayBoard> = Vec::new();
        let mut at: usize = 0;
        proof {
            assert(board_views(usb_relays@) == Seq::<UsbRelayBoardView>::empty());
        }
        while at < probes.len()
            invariant
                at <= probes.len(),
                *enumeration == Enumeration::Devices(*probes),
                discovered(probes@.take(at as int)) == Ok::<
                    Seq<UsbRelayBoardView>,
                    UsbRelayErrorView,
                >(board_views(usb_relays@)),
            decreases probes.len() - at,
        {
            let probe = &probes[at];
            let ghost seen = probes@.take(at + 1);
            proof {
                assert(seen.drop_last() == probes@.take(at as int));
                assert(seen.last() == *probe);
            }
            if probe.is_relay_board() {
                match Self::from_probe(probe) {
                    Err(e) => {
                        proof {
                            lemma_discovery_stays_failed(probes@, at + 1);
                        }
                        return Err(e);
                    },
                    Ok(board) => {
                        let ghost before = board_views(usb_relays@);
                        usb_relays.push(board);
                        assert(board_views(usb_relays@) == before.push(board@));
                    },
                }
            }
            at = at + 1;
        }
        proof {
            assert(probes@.take(at as int) == probes@);
        }
        Ok(usb_relays)
    }

    /// The board's serial number.
    pub fn serial_number(&self) -> (serial_number: &str)
        ensures
            serial_number@ == self@.serial_number,
            self@.wf(),
    {
        proof {
            use_type_invariant(self);
        }
        self.serial_number.as_str()
    }

    /// The states of the board's relays, by relay index.
    pub fn relay_states(&self) -> (relay_states: &[UsbRelayState])
        ensures
            relay_states@ == self@.relay_states,
            self@.wf(),
    {
        proof {
            use_type_invariant(self);
        }
        self.relay_states.as_slice()
    }

    /// The state byte that the hardware would report for the board as it
    /// stands.
    pub fn state_bitmap(&self) -> (bitmap: u8)
        ensures
            bitmap == bitmap_of_states(self@.relay_states),
    {
        proof {
            use_type_invariant(self);
        }
        encode_states(&self.relay_states)
    }

    /// The error for a relay index that names no relay of the board.
    fn index_error(&self, relay_index: u8) -> (e: UsbRelayError)
        ensures
            e@ == index_out_of_range(self@, relay_index),
    {
        UsbRelayError::IndexOutOfRange {
            index: relay_index,
            serial_number: self.serial_number.clone(),
            relay_count: self.relay_states.len(),
        }
    }

    /// Builds the output report that switches the relay at `relay_index` to
    /// `state`, for the caller to write to the board. Nothing is built for
    /// an index that names no relay of the board.
    pub fn set_state_command(&self, relay_index: u8, state: UsbRelayState) -> (command: Result<
        [u8; 9],
        UsbRelayError,
    >)
        ensures
            match command {
                Ok(buf) => switch_command(self@, relay_index, state) == Ok::<
                    Seq<u8>,
                    UsbRelayErrorView,
                >(buf@),
                Err(e) => switch_command(self@, relay_index, state) == Err::<
                    Seq<u8>,
                    UsbRelayErrorView,
                >(e@),
            },
    {
        proof {
            use_type_invariant(self);
        }
        if relay_index as usize >= self.relay_states.len() {
            return Err(self.index_error(relay_index));
        }
        Ok(switch_report(relay_index, state))
    }

    /// Records that the relay at `relay_index` was switched to `state`,
    /// given what the transport reported of writing the report of
    /// [`set_state_command`](Self::set_state_command).
    ///
    /// The board takes the commanded state for the relay's state; it is not
    /// read back from the hardware. On any error the board stays as it was.
    pub fn set_state(
        &mut self,
        relay_index: u8,
        state: UsbRelayState,
        written: Transfer,
    ) -> (result: Result<(), UsbRelayError>)
        ensures
            match result {
                Ok(()) => set_state_outcome(old(self)@, relay_index, state, written) == Ok::<
                    UsbRelayBoardView,
                    UsbRelayErrorView,
                >(final(self)@),
                Err(e) => set_state_outcome(old(self)@, relay_index, state, written) == Err::<
                    UsbRelayBoardView,
                    UsbRelayErrorView,
                >(e@) && final(self)@ == old(self)@,
            },
            relay_index < old(self)@.relay_states.len() && result is Ok ==> {
                &&& final(self)@.relay_states.len() == old(self)@.relay_states.len()
                &&& final(self)@.relay_states[relay_index as int] == state
                &&& forall|i: int|
                    0 <= i < old(self)@.relay_states.len() && i != relay_index
                        ==> final(self)@.relay_states[i] == old(self)@.relay_states[i]
            },
            relay_index >= old(self)@.relay_states.len() ==> {
                &&& result matches Err(e)
                &&& e@ == index_out_of_range(old(self)@, relay_index)
                &&& final(self)@.relay_states == old(self)@.relay_states
            },
            final(self)@.serial_number == old(self)@.serial_number,
            final(self)@.wf(),
    {
        proof {
            use_type_invariant(&*self);
        }
        if relay_index as usize >= self.relay_states.len() {
            return Err(self.index_error(relay_index));
        }
        let bytes_written = match written {
            Transfer::Failed => {
                return Err(UsbRelayError::Transport);
            },
            Transfer::Completed(bytes_written) => bytes_written,
        };
        if bytes_written != REPORT_SIZE {
            return Err(UsbRelayError::Protocol { expected: REPORT_SIZE, actual: bytes_written });
        }
        self.relay_states[relay_index as usize] = state;
        Ok(())
    }

    /// The listing of the board: its serial number, then for each relay a
    /// space, the relay's index, a colon and `On` or `Off`.
    pub fn to_string(&self) -> (text: String)
        ensures
            text@ == listing(self@),
    {
        let mut text = self.serial_number.clone();
        let mut index: usize = 0;
        while index < self.relay_states.len()
            invariant
                index <= self.relay_states.len(),
                text@ == self.serial_number@ + relay_entries(
                    self.relay_states@.take(index as int),
                ),
            decreases self.relay_states.len() - index,
        {
            proof {
                let next = self.relay_states@.take(index + 1);
                assert(next.drop_last() == self.relay_states@.take(index as int));
                assert(next.last() == self.relay_states@[index as int]);
            }
            text.append(" ");
            append_decimal(&mut text, index);
            text.append(":");
            text.append(self.relay_states[index].name());
            index = index + 1;
        }
        proof {
            assert(self.relay_states@.take(index as int) == self.relay_states@);
        }
        text
    }
}

/// Once discovery has failed on the first `n` probes, it fails with the
/// same error on all of them.
pub proof fn lemma_discovery_stays_failed(probes: Seq<DeviceProbe>, n: int)
    requires
        0 <= n <= probes.len(),
        discovered(probes.take(n)) is Err,
    ensures
        discovered(probes) == discovered(probes.take(n)),
    decreases probes.len(),
{
    if n < probes.len() {
        assert(probes.drop_last().take(n) == probes.take(n));
        lemma_discovery_stays_failed(probes.drop_last(), n);
    } else {
        assert(probes.take(n) == probes);
    }
}

/// The probes of the devices that carry the relay boards' identity, in the
/// order of enumeration.
pub open spec fn relay_probes(probes: Seq<DeviceProbe>) -> Seq<DeviceProbe> {
    probes.filter(|probe: DeviceProbe| probe.spec_is_relay_board())
}

/// Discovery is all or nothing. Where it succeeds, every relay device has
/// yielded its board, and the boards stand in the order of the devices.
/// Where it fails, the error is that of the first relay device that yields
/// no board.
pub proof fn lemma_discovery_all_or_nothing(probes: Seq<DeviceProbe>)
    ensures
        match discovered(probes) {
            Ok(boards) => {
                &&& boards.len() == relay_probes(probes).len()
                &&& forall|i: int|
                    0 <= i < boards.len() ==> board_of_probe(#[trigger] relay_probes(probes)[i])
                        == Ok::<UsbRelayBoardView, UsbRelayErrorView>(boards[i])
            },
            Err(e) => exists|i: int|
                {
                    &&& 0 <= i < relay_probes(probes).len()
                    &&& board_of_probe(#[trigger] relay_probes(probes)[i]) == Err::<
                        UsbRelayBoardView,
                        UsbRelayErrorView,
                    >(e)
                    &&& forall|j: int|
                        0 <= j < i ==> board_of_probe(#[trigger] relay_probes(probes)[j]) is Ok
                },
        },
    decreases probes.len(),
{
    reveal(Seq::filter);
    if probes.len() > 0 {
        let rest = probes.drop_last();
        let last = probes.last();
        let relay_rest = relay_probes(rest);
        let relay = relay_probes(probes);
        lemma_discovery_all_or_nothing(rest);
        if last.spec_is_relay_board() {
            assert(relay == relay_rest.push(last));
        } else {
            assert(relay == relay_rest);
        }
        assert forall|k: int| 0 <= k < relay_rest.len() implies relay[k] == relay_rest[k] by {}
        match discovered(rest) {
            Ok(boards) => {
                if last.spec_is_relay_board() {
                    match board_of_probe(last) {
                        Ok(board) => {
                            assert forall|i: int| 0 <= i < boards.len() + 1 implies board_of_probe(
                                #[trigger] relay[i],
                            ) == Ok::<UsbRelayBoardView, UsbRelayErrorView>(
                                boards.push(board)[i],
                            ) by {
                                if i < boards.len() {
                                    assert(relay[i] == relay_rest[i]);
                                }
                            }
                        },
                        Err(e) => {
                            let at = relay_rest.len() as int;
                            assert(relay[at] == last);
                            assert forall|j: int| 0 <= j < at implies board_of_probe(
                                #[trigger] relay[j],
                            ) is Ok by {
                                assert(relay[j] == relay_rest[j]);
                            }
                        },
                    }
                } else {
                    assert forall|i: int| 0 <= i < boards.len() implies board_of_probe(
                        #[trigger] relay[i],
                    ) == Ok::<UsbRelayBoardView, UsbRelayErrorView>(boards[i]) by {
                        assert(relay[i] == relay_rest[i]);
                    }
                }
            },
            Err(e) => {
                let at = choose|i: int|
                    {
                        &&& 0 <= i < relay_rest.len()
                        &&& board_of_probe(#[trigger] relay_rest[i]) == Err::<
                            UsbRelayBoardView,
                            UsbRelayErrorView,
                        >(e)
                        &&& forall|j: int|
                            0 <= j < i ==> board_of_probe(#[trigger] relay_rest[j]) is Ok
                    };
                assert(relay[at] == relay_rest[at]);
                assert forall|j: int| 0 <= j < at implies board_of_probe(#[trigger] relay[j])
                    is Ok by {
                    assert(relay[j] == relay_rest[j]);
                }
            },
        }
    }
}

/// A feature report that the transfer cut short is a protocol error, and no
/// board is built from a probe that holds one.
pub proof fn lemma_short_report_yields_no_board(probe: DeviceProbe, bytes_read: usize)
    requires
        probe.features matches Some(reply) && reply.transfer == Transfer::Completed(bytes_read),
        bytes_read < REPORT_SIZE,
    ensures
        features_of(probe.features->0) == Err::<(Seq<char>, u8), UsbRelayErrorView>(
            UsbRelayErrorView::Protocol { expected: REPORT_SIZE, actual: bytes_read },
        ),
        board_of_probe(probe) is Err,
{
}

/// Every board that a probe describes is well formed, and has as many
/// relays as the probe's product string advertises.
pub proof fn lemma_board_shape(probe: DeviceProbe)
    ensures
        board_of_probe(probe) matches Ok(board) ==> {
            &&& board.wf()
            &&& probe.product is Some
            &&& advertised_relay_count(probe.product->0@) == Ok::<nat, UsbRelayErrorView>(
                board.relay_states.len(),
            )
        },
{
    if let Ok(board) = board_of_probe(probe) {
        decode_utf8_encode_utf8(serial_field(probe.features->0.data@));
    }
}

} // verus!
