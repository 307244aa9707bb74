//! Exact matching of a literal at the front of a buffer.

use nom::bytes::complete::tag;
use nom::IResult;
use vstd::prelude::*;

verus! {

/// Tests whether `input` begins with `literal` and, if so, hands back what
/// follows it.
///
/// This calls `nom::bytes::complete::tag`, and its contract is taken on trust
/// from that function: `tag(literal)` succeeds exactly when `literal` is a
/// prefix of its input, compared byte for byte, and then yields the input
/// with that prefix split off. The bytes it matched and the error it builds on
/// a mismatch are dropped here.
#[verifier::external_body]
pub(crate) fn strip_literal<'a>(input: &'a [u8], literal: &[u8]) -> (rest: Option<&'a [u8]>)
    ensures
        match rest {
            Some(tail) => literal@.is_prefix_of(input@) && tail@ == input@.skip(
                literal@.len() as int,
            ),
            None => !literal@.is_prefix_of(input@),
        },
{
    let outcome: IResult<&[u8], &[u8]> = tag(literal)(input);
    match outcome {
        Ok((tail, _)) => Some(tail),
        Err(_) => None,
    }
}

} // verus!
