//! Decoding integers that must not be zero.
//!
//! A non-zero integer is kept in a document as the integer itself. Decoding
//! it is decoding the integer and refusing zero: the caller then holds an
//! integer that a non-zero type of the standard library takes.
use vstd::prelude::*;
use crate::decode::{Failure, FromAutomerge, FromAutomergeError};
use crate::value::Value;

verus! {

/// Decodes an unsigned 8-bit integer that is not zero. Zero is a failed conversion.
pub fn nonzero_u8_from_automerge(value: &Value) -> (result: Result<u8, FromAutomergeError>)
    ensures
        match result {
            Ok(n) => n != 0 && u8::decodable(value@) && u8::decodes_to(value@, n),
            Err(error) => if u8::decodable(value@) {
                u8::decodes_to(value@, 0) && error@ == Failure::FailedTryFrom
            } else {
                u8::fails_with(value@, error@)
            },
        },
{
    match u8::from_automerge(value) {
        Ok(n) => if n != 0 {
            Ok(n)
        } else {
            Err(FromAutomergeError::FailedTryFrom)
        },
        Err(error) => Err(error),
    }
}

/// Decodes an unsigned 16-bit integer that is not zero. Zero is a failed conversion.
pub fn nonzero_u16_from_automerge(value: &Value) -> (result: Result<u16, FromAutomergeError>)
    ensures
        match result {
            Ok(n) => n != 0 && u16::decodable(value@) && u16::decodes_to(value@, n),
            Err(error) => if u16::decodable(value@) {
                u16::decodes_to(value@, 0) && error@ == Failure::FailedTryFrom
            } else {
                u16::fails_with(value@, error@)
            },
        },
{
    match u16::from_automerge(value) {
        Ok(n) => if n != 0 {
            Ok(n)
        } else {
            Err(FromAutomergeError::FailedTryFrom)
        },
        Err(error) => Err(error),
    }
}

/// Decodes an unsigned 32-bit integer that is not zero. Zero is a failed conversion.
pub fn nonzero_u32_from_automerge(value: &Value) -> (result: Result<u32, FromAutomergeError>)
    ensures
        match result {
            Ok(n) => n != 0 && u32::decodable(value@) && u32::decodes_to(value@, n),
            Err(error) => if u32::decodable(value@) {
                u32::decodes_to(value@, 0) && error@ == Failure::FailedTryFrom
            } else {
                u32::fails_with(value@, error@)
            },
        },
{
    match u32::from_automerge(value) {
        Ok(n) => if n != 0 {
            Ok(n)
        } else {
            Err(FromAutomergeError::FailedTryFrom)
        },
        Err(error) => Err(error),
    }
}

/// Decodes an unsigned 64-bit integer that is not zero. Zero is a failed conversion.
pub fn nonzero_u64_from_automerge(value: &Value) -> (result: Result<u64, FromAutomergeError>)
    ensures
        match result {
            Ok(n) => n != 0 && u64::decodable(value@) && u64::decodes_to(value@, n),
            Err(error) => if u64::decodable(value@) {
                u64::decodes_to(value@, 0) && error@ == Failure::FailedTryFrom
            } else {
                u64::fails_with(value@, error@)
            },
        },
{
    match u64::from_automerge(value) {
        Ok(n) => if n != 0 {
            Ok(n)
        } else {
            Err(FromAutomergeError::FailedTryFrom)
        },
        Err(error) => Err(error),
    }
}

/// Decodes an unsigned 128-bit integer that is not zero. Zero is a failed conversion.
pub fn nonzero_u128_from_automerge(value: &Value) -> (result: Result<u128, FromAutomergeError>)
    ensures
        match result {
            Ok(n) => n != 0 && u128::decodable(value@) && u128::decodes_to(value@, n),
            Err(error) => if u128::decodable(value@) {
                u128::decodes_to(value@, 0) && error@ == Failure::FailedTryFrom
            } else {
                u128::fails_with(value@, error@)
            },
        },
{
    match u128::from_automerge(value) {
        Ok(n) => if n != 0 {
            Ok(n)
        } else {
            Err(FromAutomergeError::FailedTryFrom)
        },
        Err(error) => Err(error),
    }
}

/// Decodes an unsigned integer of the machine's width that is not zero. Zero is a failed conversion.
pub fn nonzero_usize_from_automerge(value: &Value) -> (result: Result<usize, FromAutomergeError>)
    ensures
        match result {
            Ok(n) => n != 0 && usize::decodable(value@) && usize::decodes_to(value@, n),
            Err(error) => if usize::decodable(value@) {
                usize::decodes_to(value@, 0) && error@ == Failure::FailedTryFrom
            } else {
                usize::fails_with(value@, error@)
            },
        },
{
    match usize::from_automerge(value) {
        Ok(n) => if n != 0 {
            Ok(n)
        } else {
            Err(FromAutomergeError::FailedTryFrom)
        },
        Err(error) => Err(error),
    }
}

/// Decodes a signed 8-bit integer that is not zero. Zero is a failed conversion.
pub fn nonzero_i8_from_automerge(value: &Value) -> (result: Result<i8, FromAutomergeError>)
    ensures
        match result {
            Ok(n) => n != 0 && i8::decodable(value@) && i8::decodes_to(value@, n),
            Err(error) => if i8::decodable(value@) {
                i8::decodes_to(value@, 0) && error@ == Failure::FailedTryFrom
            } else {
                i8::fails_with(value@, error@)
            },
        },
{
    match i8::from_automerge(value) {
        Ok(n) => if n != 0 {
            Ok(n)
        } else {
            Err(FromAutomergeError::FailedTryFrom)
        },
        Err(error) => Err(error),
    }
}

/// Decodes a signed 16-bit integer that is not zero. Zero is a failed conversion.
pub fn nonzero_i16_from_automerge(value: &Value) -> (result: Result<i16, FromAutomergeError>)
    ensures
        match result {
            Ok(n) => n != 0 && i16::decodable(value@) && i16::decodes_to(value@, n),
            Err(error) => if i16::decodable(value@) {
                i16::decodes_to(value@, 0) && error@ == Failure::FailedTryFrom
            } else {
                i16::fails_with(value@, error@)
            },
        },
{
    match i16::from_automerge(value) {
        Ok(n) => if n != 0 {
            Ok(n)
        } else {
            Err(FromAutomergeError::FailedTryFrom)
        },
        Err(error) => Err(error),
    }
}

/// Decodes a signed 32-bit integer that is not zero. Zero is a failed conversion.
pub fn nonzero_i32_from_automerge(value: &Value) -> (result: Result<i32, FromAutomergeError>)
    ensures
        match result {
            Ok(n) => n != 0 && i32::decodable(value@) && i32::decodes_to(value@, n),
            Err(error) => if i32::decodable(value@) {
                i32::decodes_to(value@, 0) && error@ == Failure::FailedTryFrom
            } else {
                i32::fails_with(value@, error@)
            },
        },
{
    match i32::from_automerge(value) {
        Ok(n) => if n != 0 {
            Ok(n)
        } else {
            Err(FromAutomergeError::FailedTryFrom)
        },
        Err(error) => Err(error),
    }
}

/// Decodes a signed 64-bit integer that is not zero. Zero is a failed conversion.
pub fn nonzero_i64_from_automerge(value: &Value) -> (result: Result<i64, FromAutomergeError>)
    ensures
        match result {
            Ok(n) => n != 0 && i64::decodable(value@) && i64::decodes_to(value@, n),
            Err(error) => if i64::decodable(value@) {
                i64::decodes_to(value@, 0) && error@ == Failure::FailedTryFrom
            } else {
                i64::fails_with(value@, error@)
            },
        },
{
    match i64::from_automerge(value) {
        Ok(n) => if n != 0 {
            Ok(n)
        } else {
            Err(FromAutomergeError::FailedTryFrom)
        },
        Err(error) => Err(error),
    }
}

/// Decodes a signed 128-bit integer that is not zero. Zero is a failed conversion.
pub fn nonzero_i128_from_automerge(value: &Value) -> (result: Result<i128, FromAutomergeError>)
    ensures
        match result {
            Ok(n) => n != 0 && i128::decodable(value@) && i128::decodes_to(value@, n),
            Err(error) => if i128::decodable(value@) {
                i128::decodes_to(value@, 0) && error@ == Failure::FailedTryFrom
            } else {
                i128::fails_with(value@, error@)
            },
        },
{
    match i128::from_automerge(value) {
        Ok(n) => if n != 0 {
            Ok(n)
        } else {
            Err(FromAutomergeError::FailedTryFrom)
        },
        Err(error) => Err(error),
    }
}

/// Decodes a signed integer of the machine's width that is not zero. Zero is a failed conversion.
pub fn nonzero_isize_from_automerge(value: &Value) -> (result: Result<isize, FromAutomergeError>)
    ensures
        match result {
            Ok(n) => n != 0 && isize::decodable(value@) && isize::decodes_to(value@, n),
            Err(error) => if isize::decodable(value@) {
                isize::decodes_to(value@, 0) && error@ == Failure::FailedTryFrom
            } else {
                isize::fails_with(value@, error@)
            },
        },
{
    match isize::from_automerge(value) {
        Ok(n) => if n != 0 {
            Ok(n)
        } else {
            Err(FromAutomergeError::FailedTryFrom)
        },
        Err(error) => Err(error),
    }
}

} // verus!
