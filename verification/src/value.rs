//! Typed values and the parsers that read them out of raw responses.

use crate::decimal::{literal, Decimal, DecimalView};
use crate::error::{Error, ErrorView};
use crate::scpi_boolean::{decoded_bytes, ScpiBoolean};
use crate::text::string_from_utf8;
use vstd::prelude::*;
use vstd::string::*;
use vstd::utf8::*;

verus! {

/// A value read from the instrument.
#[derive(Debug, Clone, PartialEq, Eq)]
pub enum Value {
    Boolean(bool),
    Numeric(Decimal),
    Text(String),
}

/// A value with its text as a sequence of characters and its number as the
/// number it stands for.
pub enum ValueView {
    Boolean(bool),
    Numeric(DecimalView),
    Text(Seq<char>),
}

impl View for Value {
    type V = ValueView;

    open spec fn view(&self) -> ValueView {
        match self {
            Value::Boolean(b) => ValueView::Boolean(*b),
            Value::Numeric(d) => ValueView::Numeric(d@),
            Value::Text(t) => ValueView::Text(t@),
        }
    }
}

/// The message for a response that is not UTF-8.
pub open spec fn not_text_message() -> Seq<char> {
    "Cannot convert response into string"@
}

/// The message for a response that is text but no number.
pub open spec fn not_number_message() -> Seq<char> {
    "Cannot convert response into float"@
}

/// The text that stands in for an identification that is not UTF-8.
pub open spec fn unreadable_identification() -> Seq<char> {
    "Cannot convert the payload into string"@
}

/// What a response reads as where a boolean is awaited.
pub open spec fn boolean_reading(response: Seq<u8>) -> Result<bool, ErrorView> {
    match decoded_bytes(response) {
        Ok(b) => Ok(b),
        Err(message) => Err(ErrorView::DecodeError(message)),
    }
}

/// What a response reads as where text is awaited: the text itself,
/// provided the bytes are UTF-8.
pub open spec fn text_reading(response: Seq<u8>) -> Result<Seq<char>, ErrorView> {
    if valid_utf8(response) {
        Ok(decode_utf8(response))
    } else {
        Err(ErrorView::DecodeError(not_text_message()))
    }
}

/// What a response reads as where a number is awaited: the number that the
/// literal writes, in normal form.
pub open spec fn numeric_reading(response: Seq<u8>) -> Result<DecimalView, ErrorView> {
    if !valid_utf8(response) {
        Err(ErrorView::ParseError(not_text_message()))
    } else {
        match literal(response) {
            Some(number) => if number.normalized().in_range() {
                Ok(number.normalized())
            } else {
                Err(ErrorView::ParseError(not_number_message()))
            },
            None => Err(ErrorView::ParseError(not_number_message())),
        }
    }
}

/// What a response reads as where the identification is awaited. This never
/// fails: bytes that are not UTF-8 give a fixed text.
pub open spec fn identification_reading(response: Seq<u8>) -> Seq<char> {
    if valid_utf8(response) {
        decode_utf8(response)
    } else {
        unreadable_identification()
    }
}

/// Reads a response as a boolean.
pub fn parse_boolean(response: &Vec<u8>) -> (parsed: Result<bool, Error>)
    ensures
        match boolean_reading(response@) {
            Ok(b) => parsed == Ok::<bool, Error>(b),
            Err(error) => parsed matches Err(e) && e@ == error,
        },
{
    match ScpiBoolean::from_vec_ascii(response) {
        Ok(b) => Ok(b.value()),
        Err(message) => Err(Error::DecodeError(message)),
    }
}

/// Reads a response as text.
pub fn parse_text(response: Vec<u8>) -> (parsed: Result<String, Error>)
    ensures
        match text_reading(response@) {
            Ok(text) => parsed matches Ok(t) && t@ == text,
            Err(error) => parsed matches Err(e) && e@ == error,
        },
{
    match string_from_utf8(response) {
        Ok(text) => Ok(text),
        Err(_) => Err(Error::DecodeError("Cannot convert response into string".to_owned())),
    }
}

/// Reads a response as a number.
pub fn parse_numeric(response: Vec<u8>) -> (parsed: Result<Decimal, Error>)
    ensures
        match numeric_reading(response@) {
            Ok(number) => parsed matches Ok(d) && d@ == number,
            Err(error) => parsed matches Err(e) && e@ == error,
        },
{
    let ghost bytes = response@;
    match string_from_utf8(response) {
        Ok(text) => {
            proof {
                decode_utf8_encode_utf8(bytes);
            }
            match Decimal::parse(text.as_str().as_bytes()) {
                Some(number) => Ok(number),
                None => Err(Error::ParseError("Cannot convert response into float".to_owned())),
            }
        },
        Err(_) => Err(Error::ParseError("Cannot convert response into string".to_owned())),
    }
}

/// Reads a response as the instrument's identification.
pub fn parse_identification(response: Vec<u8>) -> (text: String)
    ensures
        text@ == identification_reading(response@),
{
    match string_from_utf8(response) {
        Ok(text) => text,
        Err(_) => "Cannot convert the payload into string".to_owned(),
    }
}

} // verus!
