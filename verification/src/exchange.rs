//! One exchange with the instrument: the bytes to hand to the transport and,
//! where an answer is awaited, how to read it.

use crate::error::{Error, ErrorView};
use crate::quantize::{probe_label, probe_label_text, scale_label, scale_label_text};
use crate::value::{
    boolean_reading, identification_reading, numeric_reading, parse_boolean, parse_identification,
    parse_numeric, parse_text, text_reading, Value, ValueView,
};
use vstd::prelude::*;

verus! {

/// How the response to a query is read.
#[derive(Clone, Copy, Debug, PartialEq, Eq, Structural)]
pub enum Decoder {
    /// A boolean in one of its textual forms.
    Boolean,
    /// Text, handed on as it came.
    Text,
    /// A decimal number.
    Numeric,
    /// A vertical scale, shown by its label.
    ScaleLabel,
    /// A probe ratio, shown by its label.
    ProbeLabel,
    /// The instrument's identification.
    Identification,
}

/// A reading as the caller sees it: the views of the value or of the error.
pub open spec fn reading_view(reading: Result<Value, Error>) -> Result<ValueView, ErrorView> {
    match reading {
        Ok(value) => Ok(value@),
        Err(error) => Err(error@),
    }
}

impl Decoder {
    /// What a response reads as under this decoder.
    pub open spec fn reading(self, response: Seq<u8>) -> Result<ValueView, ErrorView> {
        match self {
            Decoder::Boolean => match boolean_reading(response) {
                Ok(b) => Ok(ValueView::Boolean(b)),
                Err(error) => Err(error),
            },
            Decoder::Text => match text_reading(response) {
                Ok(text) => Ok(ValueView::Text(text)),
                Err(error) => Err(error),
            },
            Decoder::Numeric => match numeric_reading(response) {
                Ok(number) => Ok(ValueView::Numeric(number)),
                Err(error) => Err(error),
            },
            Decoder::ScaleLabel => match numeric_reading(response) {
                Ok(number) => Ok(ValueView::Text(scale_label_text(number))),
                Err(error) => Err(error),
            },
            Decoder::ProbeLabel => match numeric_reading(response) {
                Ok(number) => Ok(ValueView::Text(probe_label_text(number))),
                Err(error) => Err(error),
            },
            Decoder::Identification => Ok(ValueView::Text(identification_reading(response))),
        }
    }

    /// Reads the response that the transport handed back.
    pub fn decode(self, response: Vec<u8>) -> (reading: Result<Value, Error>)
        ensures
            reading_view(reading) == self.reading(response@),
    {
        match self {
            Decoder::Boolean => match parse_boolean(&response) {
                Ok(b) => Ok(Value::Boolean(b)),
                Err(error) => Err(error),
            },
            Decoder::Text => match parse_text(response) {
                Ok(text) => Ok(Value::Text(text)),
                Err(error) => Err(error),
            },
            Decoder::Numeric => match parse_numeric(response) {
                Ok(number) => Ok(Value::Numeric(number)),
                Err(error) => Err(error),
            },
            Decoder::ScaleLabel => match parse_numeric(response) {
                Ok(number) => Ok(Value::Text(scale_label(&number))),
                Err(error) => Err(error),
            },
            Decoder::ProbeLabel => match parse_numeric(response) {
                Ok(number) => Ok(Value::Text(probe_label(&number))),
                Err(error) => Err(error),
            },
            Decoder::Identification => Ok(Value::Text(parse_identification(response))),
        }
    }
}

/// What the adapter asks of the transport for one operation.
#[derive(Debug, Clone, PartialEq, Eq)]
pub enum Exchange {
    /// Write the request and await nothing.
    Send { request: Vec<u8> },
    /// Write the request, await one response and read it with `decoder`.
    Query { request: Vec<u8>, decoder: Decoder },
}

/// An exchange with its request as a sequence of bytes.
pub enum ExchangeView {
    Send { request: Seq<u8> },
    Query { request: Seq<u8>, decoder: Decoder },
}

impl View for Exchange {
    type V = ExchangeView;

    open spec fn view(&self) -> ExchangeView {
        match self {
            Exchange::Send { request } => ExchangeView::Send { request: request@ },
            Exchange::Query { request, decoder } => ExchangeView::Query {
                request: request@,
                decoder: *decoder,
            },
        }
    }
}

impl Exchange {
    /// The bytes to write to the transport.
    pub fn request(&self) -> (request: &Vec<u8>)
        ensures
            self@ matches ExchangeView::Send { request: r } ==> request@ == r,
            self@ matches ExchangeView::Query { request: r, .. } ==> request@ == r,
    {
        match self {
            Exchange::Send { request } => request,
            Exchange::Query { request, .. } => request,
        }
    }

    /// How to read the response, where one is awaited.
    pub fn decoder(&self) -> (decoder: Option<Decoder>)
        ensures
            self@ is Send ==> decoder is None,
            self@ matches ExchangeView::Query { decoder: d, .. } ==> decoder == Some(d),
    {
        match self {
            Exchange::Send { .. } => None,
            Exchange::Query { decoder, .. } => Some(*decoder),
        }
    }
}

} // verus!
