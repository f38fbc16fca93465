//! The relay-state bitmap: one byte of the feature report, one bit per relay.
//!
//! Bit `i`, counted from the least significant, stands for the relay at
//! index `i`; a set bit means that the relay is on.

use vstd::prelude::*;
use crate::usbrelay::UsbRelayState;

verus! {

/// The largest number of relays that a supported board has: one per bit of
/// the state byte.
pub const MAX_RELAYS: usize = 8;

/// Whether bit `index` of `bitmap` is set.
pub open spec fn bit_is_set(bitmap: u8, index: u8) -> bool {
    bitmap & (1u8 << index) != 0
}

/// The states of the first `relay_count` relays that `bitmap` stands for.
pub open spec fn states_of_bitmap(bitmap: u8, relay_count: nat) -> Seq<UsbRelayState> {
    Seq::new(relay_count, |i: int| UsbRelayState::of_bit(bit_is_set(bitmap, i as u8)))
}

/// The byte in which bit `i` is set exactly if `states[i]` is `On`.
pub open spec fn bitmap_of_states(states: Seq<UsbRelayState>) -> u8
    decreases states.len(),
{
    if states.len() == 0 {
        0
    } else {
        let lower = bitmap_of_states(states.drop_last());
        if states.last() == UsbRelayState::On {
            lower | (1u8 << ((states.len() - 1) as u8))
        } else {
            lower
        }
    }
}

/// The byte whose lowest `relay_count` bits are set and no others: `2^relay_count - 1`.
pub open spec fn low_mask(relay_count: u8) -> u8 {
    (((1u16 << relay_count) - 1) as u8)
}

/// Every relay in `states` is in state `state`.
pub open spec fn all_in_state(states: Seq<UsbRelayState>, state: UsbRelayState) -> bool {
    forall|i: int| 0 <= i < states.len() ==> states[i] == state
}

/// Decodes the state byte of a feature report into the states of a board's
/// `relay_count` relays, in index order.
pub fn decode_states(bitmap: u8, relay_count: usize) -> (states: Vec<UsbRelayState>)
    requires
        relay_count <= MAX_RELAYS,
    ensures
        states@ == states_of_bitmap(bitmap, relay_count as nat),
{
    let mut states: Vec<UsbRelayState> = Vec::new();
    let mut index: u8 = 0;
    while (index as usize) < relay_count
        invariant
            index <= relay_count <= MAX_RELAYS,
            states@ == states_of_bitmap(bitmap, index as nat),
        decreases relay_count - index,
    {
        let state = if bitmap & (1u8 << index) != 0 {
            UsbRelayState::On
        } else {
            UsbRelayState::Off
        };
        states.push(state);
        index = index + 1;
    }
    states
}

/// Encodes the states of a board's relays as the state byte that the
/// hardware would report for them.
pub fn encode_states(states: &Vec<UsbRelayState>) -> (bitmap: u8)
    requires
        states.len() <= MAX_RELAYS,
    ensures
        bitmap == bitmap_of_states(states@),
{
    let mut bitmap: u8 = 0;
    let mut index: u8 = 0;
    while (index as usize) < states.len()
        invariant
            index <= states.len() <= MAX_RELAYS,
            bitmap == bitmap_of_states(states@.take(index as int)),
        decreases states.len() - index,
    {
        proof {
            let next = states@.take(index + 1);
            assert(next.drop_last() == states@.take(index as int));
            assert(next.last() == states@[index as int]);
        }
        if states[index as usize].is_on() {
            bitmap = bitmap | (1u8 << index);
        }
        index = index + 1;
    }
    proof {
        assert(states@.take(index as int) == states@);
    }
    bitmap
}

/// Decoding a state byte for `relay_count` relays and encoding the result
/// again keeps the byte's lowest `relay_count` bits and clears the others.
pub proof fn lemma_decode_then_encode(bitmap: u8, relay_count: u8)
    requires
        relay_count <= MAX_RELAYS,
    ensures
        bitmap_of_states(states_of_bitmap(bitmap, relay_count as nat)) == bitmap & low_mask(
            relay_count,
        ),
    decreases relay_count,
{
    let states = states_of_bitmap(bitmap, relay_count as nat);
    if relay_count == 0 {
        assert(bitmap & low_mask(0u8) == 0u8) by (bit_vector);
    } else {
        let below = (relay_count - 1) as u8;
        lemma_decode_then_encode(bitmap, below);
        assert(states.drop_last() == states_of_bitmap(bitmap, below as nat));
        assert(states.last() == UsbRelayState::of_bit(bit_is_set(bitmap, below)));
        assert(bitmap & low_mask(relay_count) == if bit_is_set(bitmap, below) {
            (bitmap & low_mask(below)) | (1u8 << below)
        } else {
            bitmap & low_mask(below)
        }) by (bit_vector)
            requires
                0 < relay_count <= 8,
                below == relay_count - 1,
        ;
    }
}

/// Encoding the states of at most eight relays and decoding the byte for as
/// many relays gives the states back.
pub proof fn lemma_encode_then_decode(states: Seq<UsbRelayState>)
    requires
        states.len() <= MAX_RELAYS,
    ensures
        states_of_bitmap(bitmap_of_states(states), states.len()) == states,
    decreases states.len(),
{
    if states.len() > 0 {
        let lower_states = states.drop_last();
        let lower = bitmap_of_states(lower_states);
        let top = (states.len() - 1) as u8;
        let bitmap = bitmap_of_states(states);
        lemma_encode_then_decode(lower_states);
        lemma_decode_then_encode(lower, top);
        assert(lower & low_mask(top) == lower) by {
            assert(states_of_bitmap(lower, top as nat) == lower_states);
        }
        let decoded = states_of_bitmap(bitmap, states.len());
        assert forall|i: int| 0 <= i < states.len() implies decoded[i] == states[i] by {
            let at = i as u8;
            if i < top {
                assert(states_of_bitmap(lower, top as nat)[i] == lower_states[i]);
                assert(bit_is_set(lower | (1u8 << top), at) == bit_is_set(lower, at))
                    by (bit_vector)
                    requires
                        at < top < 8,
                ;
            } else {
                assert(bit_is_set(lower | (1u8 << top), top)) by (bit_vector)
                    requires
                        top < 8,
                ;
                assert(!bit_is_set(lower, top)) by (bit_vector)
                    requires
                        top < 8,
                        lower & low_mask(top) == lower,
                ;
            }
        }
    }
}

/// A board whose relays are all off re-encodes to the byte `0x00`.
pub proof fn lemma_all_off_encodes_zero(states: Seq<UsbRelayState>)
    requires
        all_in_state(states, UsbRelayState::Off),
    ensures
        bitmap_of_states(states) == 0,
    decreases states.len(),
{
    if states.len() > 0 {
        lemma_all_off_encodes_zero(states.drop_last());
    }
}

/// A board whose `n` relays are all on re-encodes to the byte `2^n - 1`.
pub proof fn lemma_all_on_encodes_low_mask(states: Seq<UsbRelayState>)
    requires
        states.len() <= MAX_RELAYS,
        all_in_state(states, UsbRelayState::On),
    ensures
        bitmap_of_states(states) == low_mask(states.len() as u8),
    decreases states.len(),
{
    if states.len() == 0 {
        assert(low_mask(0u8) == 0u8) by (bit_vector);
    } else {
        let count = states.len() as u8;
        let below = (count - 1) as u8;
        lemma_all_on_encodes_low_mask(states.drop_last());
        assert(low_mask(below) | (1u8 << below) == low_mask(count)) by (bit_vector)
            requires
                0 < count <= 8,
                below == count - 1,
        ;
    }
}

/// Decoding a state byte and encoding the states again: where the byte says
/// that every relay of the board is off, the result is `0x00`; where it says
/// that every relay is on, the result is `2^relay_count - 1`.
pub proof fn lemma_uniform_states_reencode(bitmap: u8, relay_count: u8)
    requires
        relay_count <= MAX_RELAYS,
    ensures
        all_in_state(states_of_bitmap(bitmap, relay_count as nat), UsbRelayState::Off)
            ==> bitmap_of_states(states_of_bitmap(bitmap, relay_count as nat)) == 0,
        all_in_state(states_of_bitmap(bitmap, relay_count as nat), UsbRelayState::On)
            ==> bitmap_of_states(states_of_bitmap(bitmap, relay_count as nat)) == low_mask(
            relay_count,
        ),
{
    let states = states_of_bitmap(bitmap, relay_count as nat);
    if all_in_state(states, UsbRelayState::Off) {
        lemma_all_off_encodes_zero(states);
    }
    if all_in_state(states, UsbRelayState::On) {
        lemma_all_on_encodes_low_mask(states);
    }
}

} // verus!
