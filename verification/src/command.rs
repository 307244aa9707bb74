//! Assembling a command from the bytes of one UART message.

use crate::led::Led;
use crate::literal::strip_literal;
use crate::locate::continuation;
use crate::state::LedState;
use vstd::prelude::*;

verus! {

/// The verb that opens every command, with the space that ends it.
pub const PREFIX: [u8; 4] = ['e' as u8, 's' as u8, 'p' as u8, ' ' as u8];

/// The single space that stands between the LED name and the state name.
pub const SEPARATOR: [u8; 1] = [' ' as u8];

/// The outcome of parsing one message.
///
/// `led` and `state` carry what the message asked for only where `success` is
/// set. A rejected message always yields the same filler in both fields, which
/// is not to be read as a request.
#[derive(Clone, Copy, Debug, PartialEq, Eq, Structural)]
pub struct Command {
    /// Whether the message was a command.
    pub success: bool,
    /// Which LED to operate on.
    pub led: Led,
    /// Which state to put the LED in.
    pub state: LedState,
}

impl Command {
    /// The one value that stands for every rejected message.
    pub open spec fn rejected() -> Command {
        Command { success: false, led: Led::Led1, state: LedState::Off }
    }

    /// A command without `success` holds the filler of `rejected` and no
    /// leftovers of a parse that was given up halfway.
    pub open spec fn well_formed(self) -> bool {
        !self.success ==> self == Command::rejected()
    }

    /// The bytes of `input` that are scanned for the LED name: all that
    /// follows the prefix.
    pub open spec fn led_segment(input: Seq<u8>) -> Seq<u8> {
        input.skip(PREFIX@.len() as int)
    }

    /// What the LED matcher leaves of the LED segment. It is meaningful only
    /// where that segment names an LED.
    pub open spec fn after_led(input: Seq<u8>) -> Seq<u8> {
        continuation(
            Command::led_segment(input),
            Led::named_in(Command::led_segment(input)).unwrap().keyword(),
        )
    }

    /// The bytes of `input` that are scanned for the state name: all that
    /// follows the separator behind the LED name.
    pub open spec fn state_segment(input: Seq<u8>) -> Seq<u8> {
        Command::after_led(input).skip(SEPARATOR@.len() as int)
    }

    /// Whether `input` is a command. The four conditions are those of the four
    /// stages, in their order; each speaks of what the stages before it left.
    pub open spec fn accepts(input: Seq<u8>) -> bool {
        &&& PREFIX@.is_prefix_of(input)
        &&& Led::named_in(Command::led_segment(input)) is Some
        &&& SEPARATOR@.is_prefix_of(Command::after_led(input))
        &&& LedState::named_in(Command::state_segment(input)) is Some
    }

    /// The command that `input` holds, or `rejected` where it holds none.
    pub open spec fn parse(input: Seq<u8>) -> Command {
        if Command::accepts(input) {
            Command {
                success: true,
                led: Led::named_in(Command::led_segment(input)).unwrap(),
                state: LedState::named_in(Command::state_segment(input)).unwrap(),
            }
        } else {
            Command::rejected()
        }
    }

    /// Parses one message. The stages run in a fixed order and the first one
    /// that fails rejects the message: the prefix `esp ` at the very start,
    /// an LED name anywhere behind it, one space directly behind that name,
    /// and a state name anywhere behind the space. Whatever else stands
    /// behind the space is scanned for the state name along with it and is
    /// otherwise not validated.
    pub fn from_slice(input: &[u8]) -> (command: Command)
        ensures
            command == Command::parse(input@),
            command.success == Command::accepts(input@),
            command.well_formed(),
            !PREFIX@.is_prefix_of(input@) ==> !command.success,
    {
        let rejected = Command { success: false, led: Led::Led1, state: LedState::Off };
        let behind_prefix = match strip_literal(input, &PREFIX) {
            Some(rest) => rest,
            None => {
                return rejected;
            },
        };
        let (behind_led, led) = match Led::from_slice(behind_prefix) {
            Some(found) => found,
            None => {
                return rejected;
            },
        };
        let behind_separator = match strip_literal(behind_led, &SEPARATOR) {
            Some(rest) => rest,
            None => {
                return rejected;
            },
        };
        match LedState::from_slice(behind_separator) {
            Some((_, state)) => Command { success: true, led, state },
            None => rejected,
        }
    }
}

/// Converts the bytes of one UART message into a command.
pub fn parse_uart(input: &[u8]) -> (command: Command)
    ensures
        command == Command::parse(input@),
        command.success == Command::accepts(input@),
        command.well_formed(),
        !PREFIX@.is_prefix_of(input@) ==> !command.success,
{
    Command::from_slice(input)
}

} // verus!
