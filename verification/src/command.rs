//! The command line's rules: from the program's name and its first argument
//! to the line that is printed.

use crate::decimal::{parse_u64, parse_u64_spec};
use crate::prime::{is_prime, is_prime_number};
use vstd::prelude::*;
use vstd::string::*;

verus! {

/// Why a command line gets no verdict.
#[derive(Clone, Copy, Debug, PartialEq, Eq, Structural)]
pub enum ArgumentError {
    /// No number was supplied.
    MissingArgument,
    /// The argument is not an unsigned 64-bit integer in decimal notation.
    ParseFailure,
}

/// The characters of an optional argument.
pub open spec fn argument_view(argument: Option<&str>) -> Option<Seq<char>> {
    match argument {
        Some(text) => Some(text@),
        None => None,
    }
}

/// The verdict that an argument is owed: whether the number it denotes is
/// prime, or the reason why there is no such number.
pub open spec fn evaluate_spec(argument: Option<Seq<char>>) -> Result<bool, ArgumentError> {
    match argument {
        None => Err(ArgumentError::MissingArgument),
        Some(text) => match parse_u64_spec(text) {
            None => Err(ArgumentError::ParseFailure),
            Some(n) => Ok(is_prime_number(n as nat)),
        },
    }
}

/// The usage line for a program called `program`.
pub open spec fn usage_line(program: Seq<char>) -> Seq<char> {
    "Usage: "@ + program + " <number>"@
}

/// The line that answers a command line: `1` for a prime, `0` for any other
/// number, the usage line where the argument is missing, and a request for a
/// valid number where it denotes none.
pub open spec fn output_spec(program: Seq<char>, argument: Option<Seq<char>>) -> Seq<char> {
    match evaluate_spec(argument) {
        Ok(true) => "1"@,
        Ok(false) => "0"@,
        Err(ArgumentError::MissingArgument) => usage_line(program),
        Err(ArgumentError::ParseFailure) => "Please provide a valid number."@,
    }
}

impl ArgumentError {
    /// The line that reports this error to the user of `program`.
    pub fn message(&self, program: &str) -> (line: String)
        ensures
            line@ == match *self {
                ArgumentError::MissingArgument => usage_line(program@),
                ArgumentError::ParseFailure => "Please provide a valid number."@,
            },
    {
        match self {
            ArgumentError::MissingArgument => {
                String::from_str("Usage: ").concat(program).concat(" <number>")
            },
            ArgumentError::ParseFailure => String::from_str("Please provide a valid number."),
        }
    }
}

/// Judges the first argument of a command line: `Ok(true)` where it denotes a
/// prime, `Ok(false)` where it denotes another number, and the error where
/// it is missing or denotes no number.
pub fn evaluate(argument: Option<&str>) -> (verdict: Result<bool, ArgumentError>)
    ensures
        verdict == evaluate_spec(argument_view(argument)),
{
    match argument {
        None => Err(ArgumentError::MissingArgument),
        Some(text) => match parse_u64(text) {
            None => Err(ArgumentError::ParseFailure),
            Some(n) => Ok(is_prime(n)),
        },
    }
}

/// The line to print for a command line, without the line break.
pub fn output_line(program: &str, argument: Option<&str>) -> (line: String)
    ensures
        line@ == output_spec(program@, argument_view(argument)),
{
    match evaluate(argument) {
        Ok(true) => String::from_str("1"),
        Ok(false) => String::from_str("0"),
        Err(error) => error.message(program),
    }
}

} // verus!
