//! The two states of an LED and the matcher that recognises their names.

use crate::locate::{continuation, lemma_embedded_occurs, occurs_in, split_after};
use vstd::prelude::*;

verus! {

/// The keyword `on`.
pub const ON: [u8; 2] = ['o' as u8, 'n' as u8];

/// The keyword `off`.
pub const OFF: [u8; 3] = ['o' as u8, 'f' as u8, 'f' as u8];

/// The state to put an LED in.
#[derive(Clone, Copy, Debug, PartialEq, Eq, Structural)]
pub enum LedState {
    On,
    Off,
}

impl LedState {
    /// The bytes that name this state in a command.
    pub open spec fn keyword(self) -> Seq<u8> {
        match self {
            LedState::On => ON@,
            LedState::Off => OFF@,
        }
    }

    /// The state that `buffer` names: `On` where `on` occurs anywhere in
    /// `buffer`, whether or not `off` occurs too; else `Off` where `off` occurs.
    pub open spec fn named_in(buffer: Seq<u8>) -> Option<LedState> {
        if occurs_in(buffer, ON@) {
            Some(LedState::On)
        } else if occurs_in(buffer, OFF@) {
            Some(LedState::Off)
        } else {
            None
        }
    }

    /// Recognises a state name anywhere in `input`. `on` is tried before
    /// `off`, and the first of the two that occurs at all decides. On a match
    /// the bytes after the first occurrence of that keyword come back with the
    /// state; `None` means that neither keyword occurs.
    pub fn from_slice(input: &[u8]) -> (outcome: Option<(&[u8], LedState)>)
        ensures
            match outcome {
                Some((rest, state)) => LedState::named_in(input@) == Some(state) && rest@
                    == continuation(input@, state.keyword()),
                None => LedState::named_in(input@) is None,
            },
    {
        if let Some(rest) = split_after(input, &ON) {
            return Some((rest, LedState::On));
        }
        if let Some(rest) = split_after(input, &OFF) {
            return Some((rest, LedState::Off));
        }
        None
    }

    /// The matcher goes by containment, not by equality with a keyword: a
    /// buffer names a state exactly if one of the two keywords occurs in it.
    pub proof fn lemma_named_iff_contained(buffer: Seq<u8>)
        ensures
            LedState::named_in(buffer) is Some <==> exists|state: LedState|
                occurs_in(buffer, #[trigger] state.keyword()),
    {
        if LedState::named_in(buffer) is Some {
            assert(occurs_in(buffer, LedState::named_in(buffer).unwrap().keyword()));
        }
    }

    /// A keyword set between any bytes is recognised, whatever those bytes
    /// are. `on` always yields `On`; `off` yields `Off` unless the bytes around
    /// it bring in an `on`.
    pub proof fn lemma_embedded_keyword_named(before: Seq<u8>, state: LedState, after: Seq<u8>)
        ensures
            LedState::named_in(before + state.keyword() + after) is Some,
            state == LedState::On ==> LedState::named_in(before + state.keyword() + after)
                == Some(LedState::On),
            !occurs_in(before + state.keyword() + after, ON@) ==> LedState::named_in(
                before + state.keyword() + after,
            ) == Some(LedState::Off),
    {
        lemma_embedded_occurs(before, state.keyword(), after);
    }
}

} // verus!
