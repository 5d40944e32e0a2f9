//! Numbers: how they are held, and the decoder of a number field.
//!
//! Verified code computes with integers only. A number is therefore held as
//! the bits of its IEEE 754 encoding, and what turns a token into those
//! bits, the number syntax, is a decoder that the caller names.

use std::marker::PhantomData;
use vstd::prelude::*;

use crate::parser::{FieldParser, ParseError};
use crate::span::trim;

verus! {

/// A single-precision number, as the 32 bits of its IEEE 754 encoding.
#[derive(Debug, Clone, Copy, PartialEq, Eq, Structural)]
pub struct Float32 {
    pub bits: u32,
}

impl Float32 {
    /// The number with the given encoding.
    pub fn from_bits(bits: u32) -> (r: Self)
        ensures
            r.bits == bits,
    {
        Self { bits }
    }

    /// The encoding of the number.
    pub fn to_bits(&self) -> (r: u32)
        ensures
            r == self.bits,
    {
        self.bits
    }
}

/// A double-precision number, as the 64 bits of its IEEE 754 encoding.
#[derive(Debug, Clone, Copy, PartialEq, Eq, Structural)]
pub struct Float64 {
    pub bits: u64,
}

impl Float64 {
    /// The number with the given encoding.
    pub fn from_bits(bits: u64) -> (r: Self)
        ensures
            r.bits == bits,
    {
        Self { bits }
    }

    /// The encoding of the number.
    pub fn to_bits(&self) -> (r: u64)
        ensures
            r == self.bits,
    {
        self.bits
    }
}

/// What decoding a number ends in, given what the number syntax made of the
/// token: its value, or the failure of a number field.
pub open spec fn settled<T>(outcome: Result<T, ParseError>) -> Result<T, ParseError> {
    match outcome {
        Ok(value) => Ok(value),
        Err(_) => Err(ParseError::InvalidNumber),
    }
}

/// Decodes a field as a number: the field without its surrounding
/// whitespace, which must not be empty, read by the number syntax `N`.
pub struct FloatParser<N> {
    syntax: PhantomData<N>,
}

/// Turns what the number syntax made of a token into the result of
/// decoding the field: every failure is that of a number field.
pub fn settle<T>(outcome: Result<T, ParseError>) -> (r: Result<T, ParseError>)
    ensures
        r == settled(outcome),
{
    match outcome {
        Ok(value) => Ok(value),
        Err(_) => Err(ParseError::InvalidNumber),
    }
}

impl<T, N: FieldParser<T>> FieldParser<T> for FloatParser<N> {
    /// A blank span fails. Any other span decodes to whatever the number
    /// syntax makes of it once it is trimmed.
    open spec fn decodes(span: Seq<u8>, r: Result<T, ParseError>) -> bool {
        let token = crate::span::trimmed(span);
        if token.len() == 0 {
            r == Err::<T, ParseError>(ParseError::InvalidNumber)
        } else {
            exists|outcome: Result<T, ParseError>| #[trigger]
                N::decodes(token, outcome) && r == settled(outcome)
        }
    }

    fn parse(span: &[u8]) -> (r: Result<T, ParseError>) {
        let token = trim(span);
        if token.len() == 0 {
            return Err(ParseError::InvalidNumber);
        }
        let outcome = N::parse(token);
        assert(N::decodes(token@, outcome));
        settle(outcome)
    }
}

} // verus!
