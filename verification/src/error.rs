//! The one error of both converters: a message.

use crate::lua::{describe, error_text};
use vstd::prelude::*;

verus! {

/// Why a conversion failed, in words. There are no sub-kinds: every failure
/// of the encoder, of the decoder and of the runtime is a message.
#[derive(Debug)]
pub enum Error {
    Message(String),
}

/// What a decoder found where it expected something else. These are the
/// cases of `serde::de::Unexpected` that the decoder reports; a table is what
/// serde calls a map.
#[derive(Clone, Copy, Debug)]
pub enum Unexpected {
    Table,
    UnitVariant,
    NewtypeVariant,
}

impl View for Error {
    type V = Seq<char>;

    open spec fn view(&self) -> Seq<char> {
        match self {
            Error::Message(text) => text@,
        }
    }
}

/// How `serde` writes an `Unexpected` in a message.
pub open spec fn unexpected_text(unexpected: Unexpected) -> Seq<char> {
    match unexpected {
        Unexpected::Table => "map"@,
        Unexpected::UnitVariant => "unit variant"@,
        Unexpected::NewtypeVariant => "newtype variant"@,
    }
}

/// The message of `serde::de::Error::invalid_type`.
pub open spec fn invalid_type_text(unexpected: Unexpected, expected: Seq<char>) -> Seq<char> {
    "invalid type: "@ + unexpected_text(unexpected) + ", expected "@ + expected
}

/// The message of `serde::de::Error::invalid_value`.
pub open spec fn invalid_value_text(unexpected: Unexpected, expected: Seq<char>) -> Seq<char> {
    "invalid value: "@ + unexpected_text(unexpected) + ", expected "@ + expected
}

/// The digit for a number below ten.
pub open spec fn digit(n: nat) -> char {
    if n == 0 {
        '0'
    } else if n == 1 {
        '1'
    } else if n == 2 {
        '2'
    } else if n == 3 {
        '3'
    } else if n == 4 {
        '4'
    } else if n == 5 {
        '5'
    } else if n == 6 {
        '6'
    } else if n == 7 {
        '7'
    } else if n == 8 {
        '8'
    } else {
        '9'
    }
}

/// A number as it is written in decimal, without leading zeros.
pub open spec fn decimal(n: nat) -> Seq<char>
    decreases n,
{
    if n < 10 {
        seq![digit(n)]
    } else {
        decimal(n / 10) + seq![digit(n % 10)]
    }
}

/// The message of `serde::de::Error::invalid_length`.
pub open spec fn invalid_length_text(len: usize, expected: Seq<char>) -> Seq<char> {
    "invalid length "@ + decimal(len as nat) + ", expected "@ + expected
}

/// Calls `serde::de::Error::invalid_type` on serde's own error type and takes
/// the message, which serde formats as
/// `"invalid type: {unexpected}, expected {expected}"`.
#[verifier::external_body]
fn serde_invalid_type(unexpected: Unexpected, expected: &str) -> (text: String)
    ensures
        text@ == invalid_type_text(unexpected, expected@),
{
    let unexpected = match unexpected {
        Unexpected::Table => serde::de::Unexpected::Map,
        Unexpected::UnitVariant => serde::de::Unexpected::UnitVariant,
        Unexpected::NewtypeVariant => serde::de::Unexpected::NewtypeVariant,
    };
    let error: serde::de::value::Error = serde::de::Error::invalid_type(unexpected, &expected);
    error.to_string()
}

/// Calls `serde::de::Error::invalid_value` on serde's own error type and takes
/// the message, which serde formats as
/// `"invalid value: {unexpected}, expected {expected}"`.
#[verifier::external_body]
fn serde_invalid_value(unexpected: Unexpected, expected: &str) -> (text: String)
    ensures
        text@ == invalid_value_text(unexpected, expected@),
{
    let unexpected = match unexpected {
        Unexpected::Table => serde::de::Unexpected::Map,
        Unexpected::UnitVariant => serde::de::Unexpected::UnitVariant,
        Unexpected::NewtypeVariant => serde::de::Unexpected::NewtypeVariant,
    };
    let error: serde::de::value::Error = serde::de::Error::invalid_value(unexpected, &expected);
    error.to_string()
}

/// Calls `serde::de::Error::invalid_length` on serde's own error type and
/// takes the message, which serde formats as
/// `"invalid length {len}, expected {expected}"`.
#[verifier::external_body]
fn serde_invalid_length(len: usize, expected: &str) -> (text: String)
    ensures
        text@ == invalid_length_text(len, expected@),
{
    let error: serde::de::value::Error = serde::de::Error::invalid_length(len, &expected);
    error.to_string()
}

/// True when `result` is the error with the message `text`.
pub open spec fn fails_with<T>(result: Result<T, Error>, text: Seq<char>) -> bool {
    result matches Err(error) && error@ == text
}

/// True when `result` is the error that `err`, a failure of the runtime,
/// turns into.
pub open spec fn fails_as<T>(result: Result<T, Error>, err: mlua::Error) -> bool {
    result == Err::<T, Error>(Error::Message(error_text(err)))
}

/// True when `error` is the message of some failure of the runtime.
pub open spec fn is_runtime_failure(error: Error) -> bool {
    exists|err: mlua::Error| error == Error::Message(#[trigger] error_text(err))
}

/// Turns a failure of the runtime into an `Error` and leaves success as it is.
pub(crate) fn lift<T>(result: Result<T, mlua::Error>) -> (lifted: Result<T, Error>)
    ensures
        match result {
            Ok(value) => lifted == Ok::<T, Error>(value),
            Err(err) => fails_as(lifted, err) && is_runtime_failure(lifted->Err_0),
        },
{
    match result {
        Ok(value) => Ok(value),
        Err(err) => Err(Error::from(err)),
    }
}

impl Error {
    /// An error with `msg` as its message.
    pub fn custom(msg: &str) -> (error: Error)
        ensures
            error@ == msg@,
    {
        Error::Message(msg.to_owned())
    }

    /// The error for a value of the wrong type.
    pub fn invalid_type(unexpected: Unexpected, expected: &str) -> (error: Error)
        ensures
            error@ == invalid_type_text(unexpected, expected@),
    {
        Error::Message(serde_invalid_type(unexpected, expected))
    }

    /// The error for a value of the right type that is still not acceptable.
    pub fn invalid_value(unexpected: Unexpected, expected: &str) -> (error: Error)
        ensures
            error@ == invalid_value_text(unexpected, expected@),
    {
        Error::Message(serde_invalid_value(unexpected, expected))
    }

    /// The error for a sequence or map of `len` elements where `expected`
    /// describes what was asked for.
    pub fn invalid_length(len: usize, expected: &str) -> (error: Error)
        ensures
            error@ == invalid_length_text(len, expected@),
    {
        Error::Message(serde_invalid_length(len, expected))
    }

    /// The message.
    pub fn to_string(&self) -> (text: String)
        ensures
            text@ == self@,
    {
        match self {
            Error::Message(text) => text.clone(),
        }
    }
}

impl From<mlua::Error> for Error {
    /// A failure of the runtime becomes its own message at once, so that no
    /// handle into the runtime outlives the call.
    fn from(err: mlua::Error) -> (error: Error) {
        Error::Message(describe(&err))
    }
}

impl vstd::std_specs::convert::FromSpecImpl<mlua::Error> for Error {
    open spec fn obeys_from_spec() -> bool {
        true
    }

    open spec fn from_spec(err: mlua::Error) -> Error {
        Error::Message(error_text(err))
    }
}

} // verus!
