use uart_command::{parse_uart, Command, Led, LedState};

fn rejected() -> Command {
    Command {
        success: false,
        led: Led::Led1,
        state: LedState::Off,
    }
}

fn accepted(led: Led, state: LedState) -> Command {
    Command {
        success: true,
        led,
        state,
    }
}

#[test]
fn test_led1_on() {
    assert_eq!(
        parse_uart("esp led1 on".as_bytes()),
        Command {
            success: true,
            led: Led::Led1,
            state: LedState::On,
        }
    );
}

#[test]
fn test_led2_off() {
    assert_eq!(
        parse_uart("esp led2 off".as_bytes()),
        Command {
            success: true,
            led: Led::Led2,
            state: LedState::Off,
        }
    );
}

#[test]
fn test_led2_off_fail() {
    assert_eq!(
        parse_uart("esp led2 ofna".as_bytes()),
        Command {
            success: false,
            led: Led::Led1,
            state: LedState::Off,
        }
    );
}

#[test]
fn test_led3_on_oversized() {
    // The buffer is two bytes longer than the command it holds.
    for excess in [[0u8, 0u8], [b'\r', b'\n'], [b'x', b'y'], [0xff, 0x7f]] {
        let mut buffer = "esp led3 on".as_bytes().to_vec();
        buffer.extend_from_slice(&excess);
        assert_eq!(buffer.len(), "esp led3 on".len() + 2);
        assert_eq!(
            parse_uart(&buffer),
            Command {
                success: true,
                led: Led::Led3,
                state: LedState::On,
            }
        );
    }
}

#[test]
fn every_led_and_state_is_reported() {
    assert_eq!(parse_uart(b"esp led1 off"), accepted(Led::Led1, LedState::Off));
    assert_eq!(parse_uart(b"esp led2 on"), accepted(Led::Led2, LedState::On));
    assert_eq!(parse_uart(b"esp led3 off"), accepted(Led::Led3, LedState::Off));
    assert_eq!(parse_uart(b"esp led4 on"), accepted(Led::Led4, LedState::On));
    assert_eq!(parse_uart(b"esp led4 off"), accepted(Led::Led4, LedState::Off));
}

#[test]
fn from_slice_agrees_with_parse_uart() {
    for message in [
        &b"esp led1 on"[..],
        b"esp led2 ofna",
        b"led1 on",
        b"",
        b"esp led4 offon",
    ] {
        assert_eq!(Command::from_slice(message), parse_uart(message));
    }
}

#[test]
fn missing_prefix_is_rejected() {
    assert_eq!(parse_uart(b"led1 on"), rejected());
    assert_eq!(parse_uart(b""), rejected());
    assert_eq!(parse_uart(b"esp"), rejected());
    assert_eq!(parse_uart(b"espled1 on"), rejected());
    assert_eq!(parse_uart(b" esp led1 on"), rejected());
    assert_eq!(parse_uart(b"xesp led1 on"), rejected());
    assert_eq!(parse_uart(b"ESP led1 on"), rejected());
    assert_eq!(parse_uart(b"Esp led1 on"), rejected());
    assert_eq!(parse_uart(b"es led1 on"), rejected());
}

#[test]
fn prefix_is_not_searched_for() {
    // `esp ` occurs, but not at the very start.
    assert_eq!(parse_uart(b"led1 on esp led1 on"), rejected());
}

#[test]
fn missing_led_is_rejected() {
    assert_eq!(parse_uart(b"esp "), rejected());
    assert_eq!(parse_uart(b"esp on"), rejected());
    assert_eq!(parse_uart(b"esp led5 on"), rejected());
    assert_eq!(parse_uart(b"esp led on"), rejected());
    assert_eq!(parse_uart(b"esp LED1 on"), rejected());
    assert_eq!(parse_uart(b"esp le d1 on"), rejected());
}

#[test]
fn missing_separator_is_rejected() {
    assert_eq!(parse_uart(b"esp led1on"), rejected());
    assert_eq!(parse_uart(b"esp led1"), rejected());
    assert_eq!(parse_uart(b"esp led1x on"), rejected());
    assert_eq!(parse_uart(b"esp led1\ton"), rejected());
    assert_eq!(parse_uart(b"esp led11 on"), rejected());
}

#[test]
fn missing_state_is_rejected() {
    assert_eq!(parse_uart(b"esp led1 "), rejected());
    assert_eq!(parse_uart(b"esp led1 of"), rejected());
    assert_eq!(parse_uart(b"esp led1 o n"), rejected());
    assert_eq!(parse_uart(b"esp led1 ON"), rejected());
    assert_eq!(parse_uart(b"esp led1 OFF"), rejected());
}

#[test]
fn state_ahead_of_the_separator_does_not_count() {
    // The only `on` lies in front of the LED name.
    assert_eq!(parse_uart(b"esp on led1 "), rejected());
}

#[test]
fn rejection_carries_the_fixed_filler() {
    let outcome = parse_uart(b"esp led4 nothing");
    assert!(!outcome.success);
    assert_eq!(outcome.led, Led::Led1);
    assert_eq!(outcome.state, LedState::Off);
    // Nothing of the LED that was already recognised leaks into the result.
    assert_eq!(parse_uart(b"esp led3 "), rejected());
    assert_eq!(parse_uart(b"esp led2"), parse_uart(b"garbage"));
}

#[test]
fn bytes_ahead_of_the_led_name_are_skipped() {
    assert_eq!(parse_uart(b"esp xxled2 on"), accepted(Led::Led2, LedState::On));
    assert_eq!(parse_uart(b"esp   led3 off"), accepted(Led::Led3, LedState::Off));
    assert_eq!(parse_uart(b"esp lled4 on"), accepted(Led::Led4, LedState::On));
}

#[test]
fn bytes_around_the_state_name_are_skipped() {
    assert_eq!(parse_uart(b"esp led1 onnnnn"), accepted(Led::Led1, LedState::On));
    assert_eq!(parse_uart(b"esp led1  on"), accepted(Led::Led1, LedState::On));
    assert_eq!(parse_uart(b"esp led1 xxoffyy"), accepted(Led::Led1, LedState::Off));
    assert_eq!(parse_uart(b"esp led1 oonn"), accepted(Led::Led1, LedState::On));
    assert_eq!(parse_uart(b"esp led2 off\r\n"), accepted(Led::Led2, LedState::Off));
}

#[test]
fn lowest_led_number_wins_wherever_it_stands() {
    // `led1` is selected although `led2` comes first, and the separator is
    // looked for behind `led1`.
    assert_eq!(parse_uart(b"esp led2 led1 on"), accepted(Led::Led1, LedState::On));
    assert_eq!(parse_uart(b"esp led4led3 off"), accepted(Led::Led3, LedState::Off));
}

#[test]
fn led_name_behind_the_command_can_spoil_it() {
    // `led1` behind the state is selected, and nothing follows it.
    assert_eq!(parse_uart(b"esp led2 on led1"), rejected());
    // A trailing LED of higher number is never selected.
    assert_eq!(parse_uart(b"esp led2 on led3"), accepted(Led::Led2, LedState::On));
}

#[test]
fn on_wins_over_off_wherever_it_stands() {
    assert_eq!(parse_uart(b"esp led1 off on"), accepted(Led::Led1, LedState::On));
    assert_eq!(parse_uart(b"esp led1 on off"), accepted(Led::Led1, LedState::On));
    assert_eq!(parse_uart(b"esp led1 offon"), accepted(Led::Led1, LedState::On));
}

#[test]
fn first_occurrence_of_the_led_name_decides_the_split() {
    // The first `led1` is followed by a space; the second is not.
    assert_eq!(parse_uart(b"esp led1 led1x on"), accepted(Led::Led1, LedState::On));
    // The first `led1` is not followed by a space; the second would be.
    assert_eq!(parse_uart(b"esp led1xled1 on"), rejected());
}

#[test]
fn trailing_bytes_are_tolerated() {
    let plain = parse_uart(b"esp led3 on");
    assert_eq!(parse_uart(b"esp led3 on\0\0"), plain);
    assert_eq!(parse_uart(b"esp led3 on and more text"), plain);
    assert_eq!(parse_uart(b"esp led3 on led4 off"), plain);
    assert_eq!(parse_uart(b"esp led3 on\xff\xfe\xfd"), plain);
}

#[test]
fn parsing_twice_gives_the_same_command() {
    for message in [
        &b"esp led1 on"[..],
        b"esp led2 off",
        b"esp led2 ofna",
        b"led1 on",
        b"esp led3 on\0\0",
    ] {
        let first = parse_uart(message);
        let second = parse_uart(message);
        assert_eq!(first, second);
        // A copy of the bytes at another address parses alike.
        let copy = message.to_vec();
        assert_eq!(parse_uart(&copy), first);
    }
}

#[test]
fn wire_format_with_closing_led_part_is_accepted() {
    // `esp ` + led part + ` ` + state part + trailing bytes
    let mut message = Vec::new();
    message.extend_from_slice(b"esp ");
    message.extend_from_slice(b"--led3");
    message.extend_from_slice(b" ");
    message.extend_from_slice(b"..off..");
    message.extend_from_slice(b"tail");
    assert_eq!(parse_uart(&message), accepted(Led::Led3, LedState::Off));
}

#[test]
fn commands_can_be_copied_and_printed() {
    let command = parse_uart(b"esp led4 on");
    let copy = command;
    assert_eq!(copy.clone(), command);
    assert_eq!(
        format!("{:?}", command),
        "Command { success: true, led: Led4, state: On }"
    );
    assert_ne!(command, rejected());
}
