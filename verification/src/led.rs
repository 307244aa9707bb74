//! The four LEDs of the board and the matcher that recognises their names.

use crate::locate::{continuation, lemma_embedded_occurs, occurs_in, split_after};
use vstd::prelude::*;

verus! {

/// The keyword `led1`.
pub const LED1: [u8; 4] = ['l' as u8, 'e' as u8, 'd' as u8, '1' as u8];

/// The keyword `led2`.
pub const LED2: [u8; 4] = ['l' as u8, 'e' as u8, 'd' as u8, '2' as u8];

/// The keyword `led3`.
pub const LED3: [u8; 4] = ['l' as u8, 'e' as u8, 'd' as u8, '3' as u8];

/// The keyword `led4`.
pub const LED4: [u8; 4] = ['l' as u8, 'e' as u8, 'd' as u8, '4' as u8];

/// One of the four LEDs on the board.
#[derive(Clone, Copy, Debug, PartialEq, Eq, Structural)]
pub enum Led {
    Led1,
    Led2,
    Led3,
    Led4,
}

impl Led {
    /// The bytes that name this LED in a command.
    pub open spec fn keyword(self) -> Seq<u8> {
        match self {
            Led::Led1 => LED1@,
            Led::Led2 => LED2@,
            Led::Led3 => LED3@,
            Led::Led4 => LED4@,
        }
    }

    /// The number of this LED, from 1 to 4. Where a buffer holds the
    /// keywords of several LEDs, the lowest number wins.
    pub open spec fn number(self) -> nat {
        match self {
            Led::Led1 => 1,
            Led::Led2 => 2,
            Led::Led3 => 3,
            Led::Led4 => 4,
        }
    }

    /// The LED that `buffer` names: the one of lowest number whose keyword
    /// occurs anywhere in `buffer`, wherever the keywords of the others lie.
    pub open spec fn named_in(buffer: Seq<u8>) -> Option<Led> {
        if occurs_in(buffer, LED1@) {
            Some(Led::Led1)
        } else if occurs_in(buffer, LED2@) {
            Some(Led::Led2)
        } else if occurs_in(buffer, LED3@) {
            Some(Led::Led3)
        } else if occurs_in(buffer, LED4@) {
            Some(Led::Led4)
        } else {
            None
        }
    }

    /// Recognises an LED name anywhere in `input`. The keywords are tried in
    /// the order `led1`, `led2`, `led3`, `led4`, and the first one that occurs
    /// at all decides. On a match the bytes after the first occurrence of that
    /// keyword come back with the LED; `None` means that no keyword occurs.
    pub fn from_slice(input: &[u8]) -> (outcome: Option<(&[u8], Led)>)
        ensures
            match outcome {
                Some((rest, led)) => Led::named_in(input@) == Some(led) && rest@ == continuation(
                    input@,
                    led.keyword(),
                ),
                None => Led::named_in(input@) is None,
            },
    {
        if let Some(rest) = split_after(input, &LED1) {
            return Some((rest, Led::Led1));
        }
        if let Some(rest) = split_after(input, &LED2) {
            return Some((rest, Led::Led2));
        }
        if let Some(rest) = split_after(input, &LED3) {
            return Some((rest, Led::Led3));
        }
        if let Some(rest) = split_after(input, &LED4) {
            return Some((rest, Led::Led4));
        }
        None
    }

    /// The matcher goes by containment, not by equality with a keyword: a
    /// buffer names an LED exactly if one of the four keywords occurs in it.
    pub proof fn lemma_named_iff_contained(buffer: Seq<u8>)
        ensures
            Led::named_in(buffer) is Some <==> exists|led: Led|
                occurs_in(buffer, #[trigger] led.keyword()),
    {
        if Led::named_in(buffer) is Some {
            assert(occurs_in(buffer, Led::named_in(buffer).unwrap().keyword()));
        }
    }

    /// Priority among the keywords: the LED that a buffer names is the one
    /// of lowest number among those whose keyword occurs in it, wherever in
    /// the buffer the keywords lie.
    pub proof fn lemma_named_is_lowest_number(buffer: Seq<u8>, led: Led)
        ensures
            Led::named_in(buffer) == Some(led) <==> {
                &&& occurs_in(buffer, led.keyword())
                &&& forall|other: Led|
                    other.number() < led.number() ==> !occurs_in(
                        buffer,
                        #[trigger] other.keyword(),
                    )
            },
    {
        assert(Led::Led1.keyword() == LED1@);
        assert(Led::Led2.keyword() == LED2@);
        assert(Led::Led3.keyword() == LED3@);
    }

    /// A keyword set between any bytes is recognised, whatever those bytes
    /// are: the buffer names that LED or, where the bytes around the keyword
    /// bring in the keyword of one, an LED of lower number.
    pub proof fn lemma_embedded_keyword_named(before: Seq<u8>, led: Led, after: Seq<u8>)
        ensures
            Led::named_in(before + led.keyword() + after) is Some,
            Led::named_in(before + led.keyword() + after).unwrap().number() <= led.number(),
    {
        lemma_embedded_occurs(before, led.keyword(), after);
    }
}

} // verus!
