use usbrelay_rs::bitmap::{decode_states, encode_states, MAX_RELAYS};
use usbrelay_rs::control::{select_board, set_relay_state, update_serial_number};
use usbrelay_rs::error::UsbRelayError;
use usbrelay_rs::report::{
    features_request, switch_report, UsbRelayCommand, SERIAL_NUMBER_SIZE, STATE_OFFSET,
};
use usbrelay_rs::text::{append_decimal, str_eq};
use usbrelay_rs::transport::{
    DeviceProbe, FeatureReply, Transfer, REPORT_SIZE, USB_RELAY_PID, USB_RELAY_VID,
};
use usbrelay_rs::usbrelay::{UsbRelayBoard, UsbRelayState};

use UsbRelayState::{Off, On};

fn board(product: &str, serial: &str, bitmap: u8) -> UsbRelayBoard {
    let s = serial.as_bytes();
    UsbRelayBoard::from_probe(&DeviceProbe {
        vendor_id: USB_RELAY_VID,
        product_id: USB_RELAY_PID,
        product: Some(product.to_string()),
        features: Some(FeatureReply {
            data: [s[0], s[1], s[2], s[3], s[4], 0, 0, bitmap, 0],
            transfer: Transfer::Completed(9),
        }),
    })
    .unwrap()
}

fn decimal(n: usize) -> String {
    let mut out = String::new();
    append_decimal(&mut out, n);
    out
}

#[test]
fn protocol_constants() {
    assert_eq!(USB_RELAY_VID, 0x16c0);
    assert_eq!(USB_RELAY_PID, 0x05df);
    assert_eq!(SERIAL_NUMBER_SIZE, 5);
    assert_eq!(REPORT_SIZE, 9);
    assert_eq!(STATE_OFFSET, 7);
    assert_eq!(MAX_RELAYS, 8);
}

#[test]
fn opcodes() {
    assert_eq!(UsbRelayCommand::ReadFeatures.opcode(), 0x01);
    assert_eq!(UsbRelayCommand::SetSerialNumber.opcode(), 0xfa);
    assert_eq!(UsbRelayCommand::TurnOff.opcode(), 0xfd);
    assert_eq!(UsbRelayCommand::TurnOn.opcode(), 0xff);
    assert_eq!(UsbRelayCommand::switching_to(On), UsbRelayCommand::TurnOn);
    assert_eq!(UsbRelayCommand::switching_to(Off), UsbRelayCommand::TurnOff);
}

#[test]
fn features_request_holds_the_read_opcode_in_byte_0() {
    assert_eq!(features_request(), [0x01, 0, 0, 0, 0, 0, 0, 0, 0]);
}

#[test]
fn turn_on_relay_2_encodes_as_ff_03() {
    let buf = switch_report(2, On);
    assert_eq!(buf.len(), 9);
    assert_eq!(buf[1], 0xff);
    assert_eq!(buf[2], 3);
    assert_eq!(buf, [0, 0xff, 3, 0, 0, 0, 0, 0, 0]);
}

#[test]
fn turn_off_encodes_as_fd_with_one_based_relay_number() {
    assert_eq!(switch_report(0, Off), [0, 0xfd, 1, 0, 0, 0, 0, 0, 0]);
    assert_eq!(switch_report(7, Off), [0, 0xfd, 8, 0, 0, 0, 0, 0, 0]);
    assert_eq!(switch_report(7, On), [0, 0xff, 8, 0, 0, 0, 0, 0, 0]);
    assert_eq!(switch_report(254, On), [0, 0xff, 255, 0, 0, 0, 0, 0, 0]);
}

#[test]
fn set_state_command_is_built_for_the_boards_relays_only() {
    let b = board("USBRelay4", "ABCDE", 0);
    assert_eq!(b.set_state_command(2, On), Ok([0, 0xff, 3, 0, 0, 0, 0, 0, 0]));
    assert_eq!(b.set_state_command(3, Off), Ok([0, 0xfd, 4, 0, 0, 0, 0, 0, 0]));
    for index in [4u8, 5, 8, 200, 255] {
        assert_eq!(
            b.set_state_command(index, On),
            Err(UsbRelayError::IndexOutOfRange {
                index,
                serial_number: "ABCDE".to_string(),
                relay_count: 4
            })
        );
    }
}

#[test]
fn set_state_updates_exactly_one_relay() {
    for bitmap in [0x00u8, 0xff, 0xa5, 0x5a] {
        for index in 0..8u8 {
            for state in [On, Off] {
                let mut b = board("USBRelay8", "ABCDE", bitmap);
                let before = b.relay_states().to_vec();
                assert_eq!(b.set_state(index, state, Transfer::Completed(9)), Ok(()));
                assert_eq!(b.relay_states().len(), 8);
                assert_eq!(b.serial_number(), "ABCDE");
                for i in 0..8 {
                    if i == index as usize {
                        assert_eq!(b.relay_states()[i], state);
                    } else {
                        assert_eq!(b.relay_states()[i], before[i]);
                    }
                }
            }
        }
    }
}

#[test]
fn set_state_out_of_range_changes_nothing() {
    for count in 0..=8u8 {
        let product = format!("USBRelay{}", count);
        for index in count..=255 {
            let mut b = board(&product, "SERIA", 0b0101_0101);
            let before = b.relay_states().to_vec();
            for written in [Transfer::Completed(9), Transfer::Completed(0), Transfer::Failed] {
                assert_eq!(
                    b.set_state(index, On, written),
                    Err(UsbRelayError::IndexOutOfRange {
                        index,
                        serial_number: "SERIA".to_string(),
                        relay_count: count as usize
                    })
                );
                assert_eq!(b.relay_states(), &before[..]);
                assert_eq!(b.serial_number(), "SERIA");
            }
        }
    }
}

#[test]
fn incomplete_write_is_a_protocol_error_and_changes_nothing() {
    for written in [0usize, 1, 8, 10, 64] {
        let mut b = board("USBRelay4", "ABCDE", 0b0110);
        assert_eq!(
            b.set_state(0, On, Transfer::Completed(written)),
            Err(UsbRelayError::Protocol { expected: 9, actual: written })
        );
        assert_eq!(b.relay_states(), &[Off, On, On, Off]);
    }
}

#[test]
fn failed_write_is_a_transport_error_and_changes_nothing() {
    let mut b = board("USBRelay4", "ABCDE", 0b0110);
    assert_eq!(b.set_state(1, Off, Transfer::Failed), Err(UsbRelayError::Transport));
    assert_eq!(b.relay_states(), &[Off, On, On, Off]);
}

#[test]
fn set_state_is_not_a_toggle() {
    let mut b = board("USBRelay2", "ABCDE", 0b01);
    assert_eq!(b.set_state(0, On, Transfer::Completed(9)), Ok(()));
    assert_eq!(b.relay_states(), &[On, Off]);
    assert_eq!(b.set_state(0, Off, Transfer::Completed(9)), Ok(()));
    assert_eq!(b.set_state(0, Off, Transfer::Completed(9)), Ok(()));
    assert_eq!(b.relay_states(), &[Off, Off]);
}

#[test]
fn all_off_reencodes_to_zero() {
    for count in 0..=8usize {
        let b = board(&format!("USBRelay{}", count), "ABCDE", 0x00);
        assert!(b.relay_states().iter().all(|s| *s == Off));
        assert_eq!(b.state_bitmap(), 0x00);
    }
    for count in 0..8usize {
        // Bits that belong to no relay of the board do not come back.
        let b = board(&format!("USBRelay{}", count), "ABCDE", 0xffu8 << count);
        assert!(b.relay_states().iter().all(|s| *s == Off));
        assert_eq!(b.state_bitmap(), 0x00);
    }
}

#[test]
fn all_on_reencodes_to_low_bits() {
    let expected: [u8; 9] = [0x00, 0x01, 0x03, 0x07, 0x0f, 0x1f, 0x3f, 0x7f, 0xff];
    for count in 0..=8usize {
        let b = board(&format!("USBRelay{}", count), "ABCDE", 0xff);
        assert_eq!(b.relay_states().len(), count);
        assert!(b.relay_states().iter().all(|s| *s == On));
        assert_eq!(b.state_bitmap(), expected[count]);
        assert_eq!(b.state_bitmap() as u16, (1u16 << count) - 1);
    }
}

#[test]
fn decoding_then_encoding_keeps_the_boards_bits() {
    for count in 0..=8usize {
        for bitmap in 0..=255u8 {
            let states = decode_states(bitmap, count);
            assert_eq!(states.len(), count);
            let mask = ((1u16 << count) - 1) as u8;
            assert_eq!(encode_states(&states), bitmap & mask);
            assert_eq!(decode_states(encode_states(&states), count), states);
        }
    }
}

#[test]
fn state_bitmap_follows_set_state() {
    let mut b = board("USBRelay4", "ABCDE", 0b0000);
    assert_eq!(b.state_bitmap(), 0b0000);
    b.set_state(1, On, Transfer::Completed(9)).unwrap();
    assert_eq!(b.state_bitmap(), 0b0010);
    b.set_state(3, On, Transfer::Completed(9)).unwrap();
    assert_eq!(b.state_bitmap(), 0b1010);
    b.set_state(1, Off, Transfer::Completed(9)).unwrap();
    assert_eq!(b.state_bitmap(), 0b1000);
}

#[test]
fn select_board_with_no_match_is_not_found() {
    assert_eq!(select_board(&Vec::new(), "ABCDE"), Err(UsbRelayError::NotFound));
    let boards = vec![board("USBRelay2", "AAAAA", 0), board("USBRelay2", "BBBBB", 0)];
    assert_eq!(select_board(&boards, "CCCCC"), Err(UsbRelayError::NotFound));
    assert_eq!(select_board(&boards, "aaaaa"), Err(UsbRelayError::NotFound));
    assert_eq!(select_board(&boards, "AAAA"), Err(UsbRelayError::NotFound));
    assert_eq!(select_board(&boards, "AAAAAA"), Err(UsbRelayError::NotFound));
    assert_eq!(select_board(&boards, ""), Err(UsbRelayError::NotFound));
}

#[test]
fn select_board_with_one_match_returns_that_board() {
    let boards = vec![
        board("USBRelay2", "AAAAA", 0),
        board("USBRelay4", "BBBBB", 0b1001),
        board("USBRelay8", "CCCCC", 0),
    ];
    assert_eq!(select_board(&boards, "AAAAA"), Ok(0));
    assert_eq!(select_board(&boards, "BBBBB"), Ok(1));
    assert_eq!(select_board(&boards, "CCCCC"), Ok(2));
    let selected = &boards[select_board(&boards, "BBBBB").unwrap()];
    assert_eq!(selected.serial_number(), "BBBBB");
    assert_eq!(selected.relay_states(), &[On, Off, Off, On]);
}

#[test]
fn select_board_with_shared_serial_is_ambiguous() {
    let boards = vec![
        board("USBRelay2", "AAAAA", 0),
        board("USBRelay4", "BBBBB", 0),
        board("USBRelay8", "AAAAA", 0),
    ];
    assert_eq!(select_board(&boards, "AAAAA"), Err(UsbRelayError::AmbiguousIdentity));
    assert_eq!(select_board(&boards, "BBBBB"), Ok(1));
    let three = vec![
        board("USBRelay1", "SAME0", 0),
        board("USBRelay1", "SAME0", 0),
        board("USBRelay1", "SAME0", 0),
    ];
    assert_eq!(select_board(&three, "SAME0"), Err(UsbRelayError::AmbiguousIdentity));
}

#[test]
fn set_relay_state_switches_the_selected_board_only() {
    let mut boards = vec![
        board("USBRelay2", "AAAAA", 0b00),
        board("USBRelay4", "BBBBB", 0b0000),
        board("USBRelay2", "CCCCC", 0b11),
    ];
    assert_eq!(set_relay_state(&mut boards, "BBBBB", 2, On, Transfer::Completed(9)), Ok(()));
    assert_eq!(boards.len(), 3);
    assert_eq!(boards[0].relay_states(), &[Off, Off]);
    assert_eq!(boards[1].relay_states(), &[Off, Off, On, Off]);
    assert_eq!(boards[2].relay_states(), &[On, On]);
    assert_eq!(boards[0].serial_number(), "AAAAA");
    assert_eq!(boards[1].serial_number(), "BBBBB");
    assert_eq!(boards[2].serial_number(), "CCCCC");
}

#[test]
fn set_relay_state_reports_selection_before_anything_else() {
    let mut boards = vec![board("USBRelay2", "AAAAA", 0b01), board("USBRelay2", "AAAAA", 0b10)];
    assert_eq!(
        set_relay_state(&mut boards, "AAAAA", 0, Off, Transfer::Completed(9)),
        Err(UsbRelayError::AmbiguousIdentity)
    );
    assert_eq!(
        set_relay_state(&mut boards, "AAAAA", 200, Off, Transfer::Failed),
        Err(UsbRelayError::AmbiguousIdentity)
    );
    assert_eq!(
        set_relay_state(&mut boards, "ZZZZZ", 200, Off, Transfer::Failed),
        Err(UsbRelayError::NotFound)
    );
    assert_eq!(boards[0].relay_states(), &[On, Off]);
    assert_eq!(boards[1].relay_states(), &[Off, On]);
}

#[test]
fn set_relay_state_passes_on_the_errors_of_set_state() {
    let mut boards = vec![board("USBRelay2", "AAAAA", 0b01), board("USBRelay2", "BBBBB", 0b10)];
    assert_eq!(
        set_relay_state(&mut boards, "BBBBB", 2, On, Transfer::Completed(9)),
        Err(UsbRelayError::IndexOutOfRange {
            index: 2,
            serial_number: "BBBBB".to_string(),
            relay_count: 2
        })
    );
    assert_eq!(
        set_relay_state(&mut boards, "BBBBB", 0, On, Transfer::Failed),
        Err(UsbRelayError::Transport)
    );
    assert_eq!(
        set_relay_state(&mut boards, "BBBBB", 0, On, Transfer::Completed(3)),
        Err(UsbRelayError::Protocol { expected: 9, actual: 3 })
    );
    assert_eq!(boards[0].relay_states(), &[On, Off]);
    assert_eq!(boards[1].relay_states(), &[Off, On]);
}

#[test]
fn update_serial_number_does_nothing() {
    assert_eq!(update_serial_number("ABCDE", "FGHIJ"), Ok(()));
    assert_eq!(update_serial_number("", ""), Ok(()));
}

#[test]
fn state_in_words() {
    assert_eq!(On.as_str(), "on");
    assert_eq!(Off.as_str(), "off");
    assert_eq!(On.name(), "On");
    assert_eq!(Off.name(), "Off");
    assert_eq!(On.name(), format!("{:?}", On));
    assert_eq!(Off.name(), format!("{:?}", Off));
    assert!(On.is_on());
    assert!(!Off.is_on());
}

#[test]
fn board_listing() {
    assert_eq!(board("USBRelay4", "ABCDE", 0b1001).to_string(), "ABCDE 0:On 1:Off 2:Off 3:On");
    assert_eq!(board("USBRelay0", "EMPTY", 0xff).to_string(), "EMPTY");
    assert_eq!(board("USBRelay1", "HW554", 0).to_string(), "HW554 0:Off");
    assert_eq!(
        board("USBRelay8", "12345", 0xff).to_string(),
        "12345 0:On 1:On 2:On 3:On 4:On 5:On 6:On 7:On"
    );
    let mut b = board("USBRelay2", "QWERT", 0);
    b.set_state(1, On, Transfer::Completed(9)).unwrap();
    assert_eq!(b.to_string(), "QWERT 0:Off 1:On");
}

#[test]
fn decimal_text() {
    assert_eq!(decimal(0), "0");
    assert_eq!(decimal(7), "7");
    assert_eq!(decimal(9), "9");
    assert_eq!(decimal(10), "10");
    assert_eq!(decimal(99), "99");
    assert_eq!(decimal(100), "100");
    assert_eq!(decimal(12345), "12345");
    assert_eq!(decimal(usize::MAX), format!("{}", usize::MAX));
    let mut out = String::from("relay ");
    append_decimal(&mut out, 42);
    assert_eq!(out, "relay 42");
}

#[test]
fn strings_are_compared_character_for_character() {
    assert!(str_eq("", ""));
    assert!(str_eq("ABCDE", "ABCDE"));
    assert!(str_eq("\u{e9}abc", "\u{e9}abc"));
    assert!(!str_eq("ABCDE", "ABCDF"));
    assert!(!str_eq("ABCDE", "abcde"));
    assert!(!str_eq("ABCDE", "ABCD"));
    assert!(!str_eq("", "A"));
    assert!(!str_eq("\u{e9}abc", "eabc"));
    assert!(!str_eq("\u{e9}", "\u{e8}"));
}
