//! Operating one board out of those that discovery found: selecting it by
//! its serial number, and switching one of its relays.

use vstd::prelude::*;
use crate::error::{UsbRelayError, UsbRelayErrorView};
use crate::text::str_eq;
use crate::transport::Transfer;
use crate::usbrelay::{
    board_views, set_state_outcome, UsbRelayBoard, UsbRelayBoardView, UsbRelayState,
};

verus! {

/// Whether `board` has the serial number `serial_number`, character for
/// character.
pub open spec fn has_serial(board: UsbRelayBoardView, serial_number: Seq<char>) -> bool {
    board.serial_number == serial_number
}

/// The position of the one board among `boards` that has the serial number
/// `serial_number`; `NotFound` where none has it, `AmbiguousIdentity`
/// where more than one has it.
pub open spec fn selected(boards: Seq<UsbRelayBoardView>, serial_number: Seq<char>) -> Result<
    int,
    UsbRelayErrorView,
> {
    if !(exists|i: int| 0 <= i < boards.len() && has_serial(#[trigger] boards[i], serial_number)) {
        Err(UsbRelayErrorView::NotFound)
    } else if exists|i: int, j: int|
        0 <= i < j < boards.len() && has_serial(#[trigger] boards[i], serial_number) && has_serial(
            #[trigger] boards[j],
            serial_number,
        ) {
        Err(UsbRelayErrorView::AmbiguousIdentity)
    } else {
        Ok(choose|i: int| 0 <= i < boards.len() && has_serial(#[trigger] boards[i], serial_number))
    }
}

/// The boards after an attempt to switch relay `relay_index` of the board
/// with serial number `serial_number` to `state`, given what the transport
/// reported of the write, or the reason why every board stays as it is.
/// The board is selected first; a failed selection is reported whatever
/// the relay index and the write.
pub open spec fn set_relay_state_outcome(
    boards: Seq<UsbRelayBoardView>,
    serial_number: Seq<char>,
    relay_index: u8,
    state: UsbRelayState,
    written: Transfer,
) -> Result<Seq<UsbRelayBoardView>, UsbRelayErrorView> {
    match selected(boards, serial_number) {
        Err(e) => Err(e),
        Ok(position) => match set_state_outcome(boards[position], relay_index, state, written) {
            Err(e) => Err(e),
            Ok(board) => Ok(boards.update(position, board)),
        },
    }
}

/// Finds the one board with the serial number `serial_number` among the
/// boards that discovery returned, and gives its position.
///
/// Serial numbers are compared character for character. That two boards
/// share one is an error of its own: neither is picked.
pub fn select_board(boards: &Vec<UsbRelayBoard>, serial_number: &str) -> (position: Result<
    usize,
    UsbRelayError,
>)
    ensures
        match position {
            Ok(p) => selected(board_views(boards@), serial_number@) == Ok::<int, UsbRelayErrorView>(
                p as int,
            ),
            Err(e) => selected(board_views(boards@), serial_number@) == Err::<
                int,
                UsbRelayErrorView,
            >(e@),
        },
        position matches Ok(p) ==> {
            &&& p < boards.len()
            &&& boards[p as int]@.serial_number == serial_number@
            &&& forall|i: int|
                0 <= i < boards.len() && i != p ==> boards[i]@.serial_number != serial_number@
        },
{
    let ghost views = board_views(boards@);
    let mut first: Option<usize> = None;
    let mut at: usize = 0;
    while at < boards.len()
        invariant
            at <= boards.len(),
            views == board_views(boards@),
            match first {
                None => forall|i: int|
                    0 <= i < at ==> !has_serial(#[trigger] views[i], serial_number@),
                Some(p) => p < at && has_serial(views[p as int], serial_number@) && forall|i: int|
                    0 <= i < at && i != p ==> !has_serial(#[trigger] views[i], serial_number@),
            },
        decreases boards.len() - at,
    {
        let found = boards[at].serial_number();
        assert(views[at as int] == boards[at as int]@);
        if str_eq(found, serial_number) {
            match first {
                Some(p) => {
                    assert(has_serial(views[p as int], serial_number@) && has_serial(
                        views[at as int],
                        serial_number@,
                    ));
                    return Err(UsbRelayError::AmbiguousIdentity);
                },
                None => {
                    first = Some(at);
                },
            }
        }
        at = at + 1;
    }
    match first {
        None => Err(UsbRelayError::NotFound),
        Some(p) => {
            assert(has_serial(views[p as int], serial_number@));
            assert forall|i: int| 0 <= i < boards.len() && i != p implies boards[i]@.serial_number
                != serial_number@ by {
                assert(!has_serial(views[i], serial_number@));
            }
            Ok(p)
        },
    }
}

/// Switches relay `index` of the board with serial number `serial_number`
/// to `state`, given what the transport reported of writing the command to
/// that board.
///
/// The board is selected first, so that an unknown or ambiguous serial
/// number is reported whatever the index and the write. On any error every
/// board stays as it was.
pub fn set_relay_state(
    boards: &mut Vec<UsbRelayBoard>,
    serial_number: &str,
    index: u8,
    state: UsbRelayState,
    written: Transfer,
) -> (result: Result<(), UsbRelayError>)
    ensures
        match result {
            Ok(()) => set_relay_state_outcome(
                board_views(old(boards)@),
                serial_number@,
                index,
                state,
                written,
            ) == Ok::<Seq<UsbRelayBoardView>, UsbRelayErrorView>(board_views(final(boards)@)),
            Err(e) => set_relay_state_outcome(
                board_views(old(boards)@),
                serial_number@,
                index,
                state,
                written,
            ) == Err::<Seq<UsbRelayBoardView>, UsbRelayErrorView>(e@) && board_views(
                final(boards)@,
            ) == board_views(old(boards)@),
        },
{
    let position = match select_board(boards, serial_number) {
        Err(e) => {
            return Err(e);
        },
        Ok(position) => position,
    };
    let ghost before = board_views(boards@);
    let result = boards[position].set_state(index, state, written);
    proof {
        assert(board_views(boards@) == before.update(position as int, boards[position as int]@));
    }
    result
}

/// Gives the board with serial number `serial_number` the serial number
/// `new_serial_number`.
///
/// The command exists in the hardware's vocabulary, but its wire format is
/// not known: nothing is sent and nothing changes.
pub fn update_serial_number(serial_number: &str, new_serial_number: &str) -> (result: Result<
    (),
    UsbRelayError,
>)
    ensures
        result is Ok,
{
    Ok(())
}

/// How many of `boards` have the serial number `serial_number`.
pub open spec fn matching_count(boards: Seq<UsbRelayBoardView>, serial_number: Seq<char>) -> nat
    decreases boards.len(),
{
    if boards.len() == 0 {
        0
    } else {
        matching_count(boards.drop_last(), serial_number) + if has_serial(
            boards.last(),
            serial_number,
        ) {
            1nat
        } else {
            0nat
        }
    }
}

/// No board is counted exactly where none has the serial number, and two or
/// more are counted exactly where two boards at different positions have it.
proof fn lemma_matching_count(boards: Seq<UsbRelayBoardView>, serial_number: Seq<char>)
    ensures
        matching_count(boards, serial_number) == 0 <==> !(exists|i: int|
            0 <= i < boards.len() && has_serial(#[trigger] boards[i], serial_number)),
        matching_count(boards, serial_number) >= 2 <==> (exists|i: int, j: int|
            0 <= i < j < boards.len() && has_serial(#[trigger] boards[i], serial_number)
                && has_serial(#[trigger] boards[j], serial_number)),
    decreases boards.len(),
{
    if boards.len() > 0 {
        let rest = boards.drop_last();
        let top = boards.len() - 1;
        lemma_matching_count(rest, serial_number);
        assert forall|i: int| 0 <= i < rest.len() implies rest[i] == boards[i] by {}
        if exists|i: int| 0 <= i < rest.len() && has_serial(#[trigger] rest[i], serial_number) {
            let i = choose|i: int|
                0 <= i < rest.len() && has_serial(#[trigger] rest[i], serial_number);
            assert(has_serial(boards[i], serial_number));
            if has_serial(boards[top], serial_number) {
                assert(0 <= i < top < boards.len() && has_serial(boards[i], serial_number)
                    && has_serial(boards[top], serial_number));
            }
        }
        if exists|i: int, j: int|
            0 <= i < j < rest.len() && has_serial(#[trigger] rest[i], serial_number) && has_serial(
                #[trigger] rest[j],
                serial_number,
            ) {
            let (i, j) = choose|i: int, j: int|
                0 <= i < j < rest.len() && has_serial(#[trigger] rest[i], serial_number)
                    && has_serial(#[trigger] rest[j], serial_number);
            assert(0 <= i < j < boards.len() && has_serial(boards[i], serial_number) && has_serial(
                boards[j],
                serial_number,
            ));
        }
        if exists|i: int| 0 <= i < boards.len() && has_serial(#[trigger] boards[i], serial_number) {
            let i = choose|i: int|
                0 <= i < boards.len() && has_serial(#[trigger] boards[i], serial_number);
            if i < top {
                assert(has_serial(rest[i], serial_number));
            }
        }
        if exists|i: int, j: int|
            0 <= i < j < boards.len() && has_serial(#[trigger] boards[i], serial_number)
                && has_serial(#[trigger] boards[j], serial_number) {
            let (i, j) = choose|i: int, j: int|
                0 <= i < j < boards.len() && has_serial(#[trigger] boards[i], serial_number)
                    && has_serial(#[trigger] boards[j], serial_number);
            assert(has_serial(rest[i], serial_number));
            if j < top {
                assert(has_serial(rest[j], serial_number));
            }
        }
    }
}

/// Selection goes by the number of boards that have the serial number: with
/// none the board is not found, with exactly one that board is selected, and
/// with two or more the serial number is ambiguous.
pub proof fn lemma_selection_by_count(boards: Seq<UsbRelayBoardView>, serial_number: Seq<char>)
    ensures
        matching_count(boards, serial_number) == 0 <==> selected(boards, serial_number) == Err::<
            int,
            UsbRelayErrorView,
        >(UsbRelayErrorView::NotFound),
        matching_count(boards, serial_number) == 1 <==> selected(boards, serial_number) is Ok,
        matching_count(boards, serial_number) >= 2 <==> selected(boards, serial_number) == Err::<
            int,
            UsbRelayErrorView,
        >(UsbRelayErrorView::AmbiguousIdentity),
        selected(boards, serial_number) matches Ok(position) ==> {
            &&& 0 <= position < boards.len()
            &&& has_serial(boards[position], serial_number)
            &&& forall|i: int|
                0 <= i < boards.len() && i != position ==> !has_serial(
                    #[trigger] boards[i],
                    serial_number,
                )
        },
{
    lemma_matching_count(boards, serial_number);
    if let Ok(position) = selected(boards, serial_number) {
        assert forall|i: int| 0 <= i < boards.len() && i != position implies !has_serial(
            #[trigger] boards[i],
            serial_number,
        ) by {
            if has_serial(boards[i], serial_number) {
                if i < position {
                    assert(0 <= i < position < boards.len() && has_serial(boards[i], serial_number)
                        && has_serial(boards[position], serial_number));
                } else {
                    assert(0 <= position < i < boards.len() && has_serial(
                        boards[position],
                        serial_number,
                    ) && has_serial(boards[i], serial_number));
                }
            }
        }
    }
}

} // verus!
