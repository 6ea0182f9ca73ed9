//! What the proofs take from the standard library without proof: functions
//! of `std` that have no specification elsewhere, each with the contract
//! that its documentation gives.

use vstd::prelude::*;
use crate::vm::cell::{is_scalar, CellNumber};
use crate::vm::memory::MemoryOptions;
use crate::vm::pointer::MemoryRange;

verus! {

/// `char::from_u32`: the character with the number `i`, where there is one.
/// The numbers of characters are those up to `0x10FFFF` outside the range
/// from `0xD800` to `0xDFFF`.
pub assume_specification[ char::from_u32 ](i: u32) -> (c: Option<char>)
    ensures
        c == if is_scalar(i as int) {
            Some(i as char)
        } else {
            None::<char>
        },
;

/// The sort of slices, `<[usize]>::sort`: afterwards the vector holds what it
/// held before, each number as often as before, and no number stands before
/// a smaller one.
#[verifier::external_body]
pub(crate) fn sort_positions(positions: &mut Vec<usize>)
    ensures
        final(positions)@.to_multiset() == old(positions)@.to_multiset(),
        forall|i: int, j: int|
            0 <= i <= j < final(positions)@.len() ==> final(positions)@[i] <= final(positions)@[j],
{
    positions.sort();
}

/// The error type of the standard library for input and output.
#[verifier::external_type_specification]
#[verifier::external_body]
pub struct ExIoError(std::io::Error);

/// `std::io::Error::new` with the kind `InvalidData`: an error that carries
/// `message`. Nothing is claimed of the error.
#[verifier::external_body]
pub(crate) fn invalid_data(message: String) -> (error: std::io::Error) {
    std::io::Error::new(std::io::ErrorKind::InvalidData, message)
}

/// `std::io::Error::new` with the kind `InvalidInput`: an error that carries
/// `message`. Nothing is claimed of the error.
#[verifier::external_body]
pub(crate) fn invalid_input(message: String) -> (error: std::io::Error) {
    std::io::Error::new(std::io::ErrorKind::InvalidInput, message)
}

/// The sentence that names `options` as invalid, with the options as their
/// derived `Debug` shows them. Nothing is claimed of the text.
#[verifier::external_body]
pub(crate) fn describe_invalid(options: &MemoryOptions) -> (text: String) {
    format!("This set of MemoryOptions is invalid: {:?}", options)
}

/// The number that `str::parse::<i128>` reads from `text`, if it reads one.
pub uninterp spec fn parsed_cell_number(text: Seq<char>) -> Option<CellNumber>;

/// `str::parse::<i128>`: the number that `text` is the decimal writing of,
/// or the message of the error where it is none.
#[verifier::external_body]
pub(crate) fn parse_cell_number(text: &str) -> (number: Result<CellNumber, String>)
    ensures
        match number {
            Ok(number) => parsed_cell_number(text@) == Some(number),
            Err(_) => parsed_cell_number(text@) is None,
        },
{
    match text.parse::<CellNumber>() {
        Ok(number) => Ok(number),
        Err(error) => Err(format!("{}", error)),
    }
}

/// The number that `str::parse::<usize>` reads from `text`, if it reads one.
pub uninterp spec fn parsed_range(text: Seq<char>) -> Option<MemoryRange>;

/// `str::parse::<usize>`: the number that `text` is the decimal writing of,
/// or the message of the error where it is none.
#[verifier::external_body]
pub(crate) fn parse_range(text: &str) -> (number: Result<MemoryRange, String>)
    ensures
        match number {
            Ok(number) => parsed_range(text@) == Some(number),
            Err(_) => parsed_range(text@) is None,
        },
{
    match text.parse::<MemoryRange>() {
        Ok(number) => Ok(number),
        Err(error) => Err(format!("{}", error)),
    }
}

/// What `str::parse::<bool>` reads from `text`: `true` from the word
/// `true`, `false` from the word `false`, and nothing from any other text.
pub open spec fn parsed_flag(text: Seq<char>) -> Option<bool> {
    if text == "true"@ {
        Some(true)
    } else if text == "false"@ {
        Some(false)
    } else {
        None
    }
}

/// `str::parse::<bool>`: what the word `text` says, or the message of the
/// error where it is neither `true` nor `false`.
#[verifier::external_body]
pub(crate) fn parse_flag(text: &str) -> (flag: Result<bool, String>)
    ensures
        match flag {
            Ok(flag) => parsed_flag(text@) == Some(flag),
            Err(_) => parsed_flag(text@) is None,
        },
{
    match text.parse::<bool>() {
        Ok(flag) => Ok(flag),
        Err(error) => Err(format!("{}", error)),
    }
}

} // verus!
