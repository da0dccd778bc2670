//! The script values that options and arguments arrive as.

use vstd::prelude::*;
use vstd::slice::slice_to_vec;

use crate::number::JsNumber;

verus! {

/// A script value, reduced to what the binding tells apart.
pub enum JsValue {
    Undefined,
    Null,
    Boolean(bool),
    Number(JsNumber),
    /// A BigInt, as an unsigned 64-bit integer.
    BigInt(u64),
    /// A string, as its UTF-8 bytes.
    Text(Vec<u8>),
    /// The bytes of an ArrayBuffer or of a view on one.
    Buffer(Vec<u8>),
    Array(Vec<JsValue>),
    /// Any other object.
    Object,
}

impl JsValue {
    pub open spec fn missing(self) -> bool {
        self is Undefined || self is Null
    }

    /// The unsigned integer that a numeric option stands for: only a finite
    /// number that is not negative has one.
    pub open spec fn unsigned(self) -> Option<u64> {
        match self {
            JsValue::Number(n) => if n.finite() && !n.negative() {
                Some(n.clamped())
            } else {
                None
            },
            _ => None,
        }
    }

    /// The application error code that an argument stands for.
    pub open spec fn error_code(self) -> u64 {
        match self {
            JsValue::Number(n) => n.clamped(),
            _ => 0,
        }
    }

    /// The bytes of a buffer, or those of a string.
    pub open spec fn raw_bytes(self) -> Option<Seq<u8>> {
        match self {
            JsValue::Buffer(bytes) => Some(bytes@),
            JsValue::Text(text) => Some(text@),
            _ => None,
        }
    }

    pub fn is_missing(&self) -> (missing: bool)
        ensures
            missing == self.missing(),
    {
        match self {
            JsValue::Undefined => true,
            JsValue::Null => true,
            _ => false,
        }
    }

    /// `code` arguments: a number, anything below zero counting as zero.
    pub fn to_error_code(&self) -> (code: u64)
        ensures
            code == self.error_code(),
    {
        match self {
            JsValue::Number(n) => n.to_u64(),
            _ => 0,
        }
    }
}

/// Read one numeric option: present only as a finite, non-negative number.
pub fn read_u64_option(value: &JsValue) -> (number: Option<u64>)
    ensures
        number == value.unsigned(),
{
    match value {
        JsValue::Number(n) => {
            if !n.is_finite() || n.is_negative() {
                None
            } else {
                Some(n.to_u64())
            }
        },
        _ => None,
    }
}

/// Read a string-or-buffer value as bytes.
pub fn value_to_bytes(value: &JsValue) -> (bytes: Option<Vec<u8>>)
    ensures
        match bytes {
            Some(bytes) => value.raw_bytes() == Some(bytes@),
            None => value.raw_bytes() is None,
        },
{
    match value {
        JsValue::Buffer(bytes) => Some(slice_to_vec(bytes.as_slice())),
        JsValue::Text(text) => Some(slice_to_vec(text.as_slice())),
        _ => None,
    }
}

/// What a numeric option stands for: the integer part of a finite number that
/// is not negative, as far as 64 bits tell it; any other value stands for
/// nothing. As an error code, whatever is no number, or below zero, is zero.
pub proof fn law_numeric_options_are_read(value: JsValue)
    ensures
        match value {
            JsValue::Number(n) => {
                &&& value.unsigned() is Some <==> n.finite() && !n.negative()
                &&& n.finite() && !n.negative() && n.whole() <= u64::MAX ==> value.unsigned()
                    == Some(n.whole() as u64) && value.error_code() == n.whole()
                &&& n.finite() && !n.negative() && n.whole() > u64::MAX ==> value.unsigned()
                    == Some(u64::MAX) && value.error_code() == u64::MAX
                &&& n.nan() || n.negative() ==> value.error_code() == 0
            },
            _ => value.unsigned() is None && value.error_code() == 0,
        },
{
}

/// Only a buffer and a string have bytes, and those are theirs; only undefined
/// and null are missing.
pub proof fn law_bytes_are_those_of_buffers_and_strings(value: JsValue)
    ensures
        match value {
            JsValue::Buffer(bytes) => value.raw_bytes() == Some(bytes@) && !value.missing(),
            JsValue::Text(text) => value.raw_bytes() == Some(text@) && !value.missing(),
            JsValue::Undefined => value.raw_bytes() is None && value.missing(),
            JsValue::Null => value.raw_bytes() is None && value.missing(),
            _ => value.raw_bytes() is None && !value.missing(),
        },
{
}

} // verus!
