//! What holds of every message, stated over the bytes of the wire format
//! `esp <led> <state>`.

use crate::command::{Command, PREFIX, SEPARATOR};
use crate::led::Led;
use crate::locate::{
    first_occurrence, is_first_occurrence, lemma_first_occurrence_before_extension,
    lemma_occurs_in_extension, lemma_occurs_in_has_first, occurs_at, occurs_in,
};
use crate::state::LedState;
use vstd::prelude::*;

verus! {

/// The LED part `led_part` of a message closes the LED match: the keyword
/// that the LED matcher selects in `remainder`, which is all that follows the
/// prefix, has its first occurrence in the last bytes of `led_part`. The
/// separator is then looked for directly behind `led_part`.
pub open spec fn closes_led_match(led_part: Seq<u8>, remainder: Seq<u8>) -> bool {
    &&& Led::named_in(remainder) is Some
    &&& is_first_occurrence(
        remainder,
        Led::named_in(remainder).unwrap().keyword(),
        led_part.len() - Led::named_in(remainder).unwrap().keyword().len(),
    )
}

/// The LED part of an accepted message: what lies between the prefix and the
/// separator.
pub open spec fn led_part_of(input: Seq<u8>) -> Seq<u8> {
    let segment = Command::led_segment(input);
    let keyword = Led::named_in(segment).unwrap().keyword();
    segment.take(first_occurrence(segment, keyword) + keyword.len())
}

/// A message that does not begin with `esp ` is rejected, whatever else it
/// holds.
pub proof fn lemma_rejected_without_prefix(input: Seq<u8>)
    requires
        !PREFIX@.is_prefix_of(input),
    ensures
        !Command::parse(input).success,
        Command::parse(input) == Command::rejected(),
{
}

/// The result is a function of the bytes alone: two buffers that hold the
/// same bytes yield the same command, and so does one buffer parsed twice.
pub proof fn lemma_same_bytes_same_command(first: Seq<u8>, second: Seq<u8>)
    requires
        first =~= second,
    ensures
        Command::parse(first) == Command::parse(second),
{
}

/// A message `esp ` + `led_part` + ` ` + `state_part` + `trailing` is accepted
/// where `led_part` holds an LED keyword, `state_part` holds a state keyword
/// and `led_part` closes the LED match. The LED is the one that `led_part`
/// names. The state is the one that `state_part` and `trailing` name together:
/// the state matcher scans both, so an `on` in `trailing` overrides an `off`
/// in `state_part`.
///
/// Without the closing condition the message may be rejected: the LED matcher
/// scans all that follows the prefix, and the separator must stand directly
/// behind the keyword that it selects there.
pub proof fn lemma_wire_format_accepted(
    led_part: Seq<u8>,
    state_part: Seq<u8>,
    trailing: Seq<u8>,
)
    requires
        Led::named_in(led_part) is Some,
        LedState::named_in(state_part) is Some,
        closes_led_match(led_part, led_part + SEPARATOR@ + state_part + trailing),
    ensures
        Command::accepts(PREFIX@ + led_part + SEPARATOR@ + state_part + trailing),
        Command::parse(PREFIX@ + led_part + SEPARATOR@ + state_part + trailing) == (Command {
            success: true,
            led: Led::named_in(led_part).unwrap(),
            state: LedState::named_in(state_part + trailing).unwrap(),
        }),
        LedState::named_in(state_part) == Some(LedState::On) ==> Command::parse(
            PREFIX@ + led_part + SEPARATOR@ + state_part + trailing,
        ).state == LedState::On,
{
    let behind = SEPARATOR@ + state_part + trailing;
    let remainder = led_part + SEPARATOR@ + state_part + trailing;
    let input = PREFIX@ + led_part + SEPARATOR@ + state_part + trailing;
    assert(remainder =~= led_part + behind);
    assert(Command::led_segment(input) =~= remainder);
    assert(Command::state_segment(input) =~= state_part + trailing);

    // The state keyword of `state_part` is still there with `trailing` behind it.
    lemma_occurs_in_extension(
        state_part,
        trailing,
        LedState::named_in(state_part).unwrap().keyword(),
    );

    // `led_part` names the LED that the whole remainder names: the selected
    // keyword lies in `led_part`, and whatever occurs in `led_part` occurs in
    // the remainder.
    let led = Led::named_in(remainder).unwrap();
    assert(occurs_at(led_part, led.keyword(), led_part.len() - led.keyword().len()));
    assert forall|other: Led| occurs_in(led_part, #[trigger] other.keyword()) implies occurs_in(
        remainder,
        other.keyword(),
    ) by {
        lemma_occurs_in_extension(led_part, behind, other.keyword());
    }
    Led::lemma_named_is_lowest_number(led_part, led);
}

/// Every accepted message has the wire format: it is `esp `, an LED part
/// that holds an LED keyword and closes the LED match, one space, and a state
/// part that holds a state keyword.
pub proof fn lemma_accepted_has_wire_format(input: Seq<u8>)
    requires
        Command::accepts(input),
    ensures
        input == PREFIX@ + led_part_of(input) + SEPARATOR@ + Command::state_segment(input),
        Led::named_in(led_part_of(input)) == Some(Command::parse(input).led),
        LedState::named_in(Command::state_segment(input)) == Some(Command::parse(input).state),
        closes_led_match(led_part_of(input), Command::led_segment(input)),
{
    let segment = Command::led_segment(input);
    let led = Led::named_in(segment).unwrap();
    lemma_occurs_in_has_first(segment, led.keyword());
    let at = first_occurrence(segment, led.keyword());
    let led_part = led_part_of(input);
    let behind = segment.skip(at + led.keyword().len());
    assert(segment =~= led_part + behind);

    // `led_part` names the LED that the whole segment names: the selected
    // keyword lies in `led_part`, and whatever occurs in `led_part` occurs in
    // the segment.
    assert(occurs_at(led_part, led.keyword(), at));
    assert forall|other: Led| occurs_in(led_part, #[trigger] other.keyword()) implies occurs_in(
        segment,
        other.keyword(),
    ) by {
        lemma_occurs_in_extension(led_part, behind, other.keyword());
    }
    Led::lemma_named_is_lowest_number(led_part, led);
}

/// Bytes added behind an accepted message change nothing, unless they bring
/// a keyword of higher priority into one of the two scans: the keyword of an
/// LED of lower number, or an `on` behind an `off`.
pub proof fn lemma_trailing_bytes_tolerated(input: Seq<u8>, trailing: Seq<u8>)
    requires
        Command::accepts(input),
        Led::named_in(Command::led_segment(input) + trailing) == Led::named_in(
            Command::led_segment(input),
        ),
        LedState::named_in(Command::state_segment(input) + trailing) == LedState::named_in(
            Command::state_segment(input),
        ),
    ensures
        Command::accepts(input + trailing),
        Command::parse(input + trailing) == Command::parse(input),
{
    let segment = Command::led_segment(input);
    let keyword = Led::named_in(segment).unwrap().keyword();
    assert(Command::led_segment(input + trailing) =~= segment + trailing);
    lemma_first_occurrence_before_extension(segment, trailing, keyword);
    assert(Command::state_segment(input + trailing) =~= Command::state_segment(input)
        + trailing);
}

} // verus!
