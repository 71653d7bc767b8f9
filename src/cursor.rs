//! Forward-only reads over a byte buffer.
use vstd::prelude::*;

use crate::error::XrainError;

verus! {

/// Relies on `nom::bytes::streaming::take` on a byte slice: when at least `n`
/// bytes remain it returns the rest and the first `n` bytes (`take_split`),
/// otherwise `Err::Incomplete`.
#[verifier::external_body]
fn nom_take<'a>(input: &'a [u8], n: usize) -> (r: Option<(&'a [u8], &'a [u8])>)
    ensures
        n <= input@.len() <==> r is Some,
        match r {
            Some(p) => p.1@ == input@.subrange(0, n as int) && p.0@ == input@.subrange(
                n as int,
                input@.len() as int,
            ),
            None => true,
        },
{
    match nom::bytes::streaming::take::<usize, &'a [u8], nom::error::Error<&'a [u8]>>(n)(input) {
        Ok((rest, taken)) => Some((rest, taken)),
        Err(_) => None,
    }
}

/// Takes the next `n` bytes of `input`, whose first byte stands at `offset`
/// in the caller's buffer. Returns the rest and the bytes taken, or
/// `InsufficientData` at `offset` when fewer than `n` bytes remain.
pub fn take_bytes<'a>(input: &'a [u8], n: usize, offset: usize) -> (r: Result<
    (&'a [u8], &'a [u8]),
    XrainError,
>)
    ensures
        n <= input@.len() <==> r is Ok,
        match r {
            Ok(p) => p.1@ == input@.subrange(0, n as int) && p.0@ == input@.subrange(
                n as int,
                input@.len() as int,
            ),
            Err(e) => e == XrainError::InsufficientData { offset },
        },
{
    match nom_take(input, n) {
        Some(p) => Ok(p),
        None => Err(XrainError::InsufficientData { offset }),
    }
}

} // verus!
