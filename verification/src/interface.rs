//! The protocol adapter: every operation on the instrument as one exchange.

use crate::command::{
    channel_path, channel_path_text, query_command, query_text, set_command, set_text,
    ChannelField,
};
use crate::decimal::Decimal;
use crate::error::{Error, ErrorView};
use crate::exchange::{Decoder, Exchange, ExchangeView};
use crate::index::{BooleanIndex, StringIndex};
use crate::scpi_boolean::{digit_form, ScpiBoolean};
use vstd::prelude::*;
use vstd::slice::slice_to_vec;
use vstd::string::*;
use vstd::utf8::*;

verus! {

/// The message with which an unknown index is refused.
pub open spec fn invalid_index_text() -> Seq<char> {
    "Invalid Index"@
}

/// The exchange that hands `request` to the instrument as it is and reads
/// the response with `decoder`.
pub open spec fn raw_query_exchange(request: Seq<u8>, decoder: Decoder) -> ExchangeView {
    ExchangeView::Query { request, decoder }
}

/// The exchange that asks for the parameter at `path` and reads the
/// response with `decoder`.
pub open spec fn query_exchange(path: Seq<char>, decoder: Decoder) -> ExchangeView {
    ExchangeView::Query { request: encode_utf8(query_text(path)), decoder }
}

/// The exchange that sets the parameter at `path` to the text `value`. No
/// response is awaited.
pub open spec fn set_exchange(path: Seq<char>, value: Seq<char>) -> ExchangeView {
    ExchangeView::Send { request: encode_utf8(set_text(path, value)) }
}

/// The exchange that sets the boolean parameter at `path`: the value goes
/// out in its one-digit form.
pub open spec fn boolean_set_exchange(path: Seq<char>, value: bool) -> ExchangeView {
    set_exchange(path, digit_form(value))
}

/// The refusal of an index that the registry does not declare.
pub open spec fn invalid_index() -> ErrorView {
    ErrorView::InvalidArgument(invalid_index_text())
}

/// The exchange that asks for the instrument's identification.
pub open spec fn identification_exchange() -> ExchangeView {
    ExchangeView::Query { request: encode_utf8("*IDN?"@), decoder: Decoder::Identification }
}

fn query(path: &str, decoder: Decoder) -> (exchange: Exchange)
    ensures
        exchange@ == query_exchange(path@, decoder),
{
    let command = query_command(path);
    Exchange::Query { request: command.as_str().as_bytes_vec(), decoder }
}

fn channel_query(channel_id: usize, field: ChannelField, decoder: Decoder) -> (exchange: Exchange)
    ensures
        exchange@ == query_exchange(channel_path_text(channel_id as nat, field), decoder),
{
    let path = channel_path(channel_id, field);
    query(path.as_str(), decoder)
}

fn channel_set_boolean(channel_id: usize, field: ChannelField, value: bool) -> (exchange: Exchange)
    ensures
        exchange@ == boolean_set_exchange(channel_path_text(channel_id as nat, field), value),
{
    let path = channel_path(channel_id, field);
    DSO2C10Interface::set_boolean_parameter(path.as_str(), value)
}

fn channel_set_numeric(channel_id: usize, field: ChannelField, value: &Decimal) -> (exchange:
    Exchange)
    ensures
        exchange@ == set_exchange(channel_path_text(channel_id as nat, field), value@.text()),
{
    let path = channel_path(channel_id, field);
    let text = value.to_text();
    DSO2C10Interface::set_string_parameter(path.as_str(), &text)
}

/// Interface to communicate with the DSO2C10 device
///
/// The adapter keeps no state: what lasts lives on the instrument, and the
/// transport stays with the caller, who performs the exchanges one at a time.
/// Each operation gives the one exchange that carries it out.
pub struct DSO2C10Interface {}

impl DSO2C10Interface {
    /// Generic way to get boolean parameter from the device: the command
    /// goes out as it is and the response is read as a boolean.
    pub fn get_boolean_parameter(cmd: &[u8]) -> (exchange: Exchange)
        ensures
            exchange@ == raw_query_exchange(cmd@, Decoder::Boolean),
    {
        Exchange::Query { request: slice_to_vec(cmd), decoder: Decoder::Boolean }
    }

    /// The exchange that sets a boolean parameter: the path, a space and the
    /// one-digit form of the value, with no response awaited.
    pub fn set_boolean_parameter(cmd: &str, value: bool) -> (exchange: Exchange)
        ensures
            exchange@ == boolean_set_exchange(cmd@, value),
    {
        let command = set_command(cmd, ScpiBoolean::new(value).to_digital_str());
        Exchange::Send { request: command.as_str().as_bytes_vec() }
    }

    /// Generic way to get string parameter from the device: the command goes
    /// out as it is and the response is read as text.
    pub fn get_string_parameter(cmd: &[u8]) -> (exchange: Exchange)
        ensures
            exchange@ == raw_query_exchange(cmd@, Decoder::Text),
    {
        Exchange::Query { request: slice_to_vec(cmd), decoder: Decoder::Text }
    }

    /// The exchange that sets a text parameter: the path, a space and the
    /// value as it is, with no response awaited.
    pub fn set_string_parameter(cmd: &str, value: &String) -> (exchange: Exchange)
        ensures
            exchange@ == set_exchange(cmd@, value@),
    {
        let command = set_command(cmd, value.as_str());
        Exchange::Send { request: command.as_str().as_bytes_vec() }
    }

    /// Generic way to get a numeric parameter from the device: the command
    /// goes out as it is and the response is read as a decimal number.
    pub fn get_float_parameter(cmd: &[u8]) -> (exchange: Exchange)
        ensures
            exchange@ == raw_query_exchange(cmd@, Decoder::Numeric),
    {
        Exchange::Query { request: slice_to_vec(cmd), decoder: Decoder::Numeric }
    }

    /// Asks whether the bandwidth limit of a channel is on.
    pub fn get_channel_bw_limit(channel_id: usize) -> (exchange: Exchange)
        ensures
            exchange@ == query_exchange(
                channel_path_text(channel_id as nat, ChannelField::BwLimit),
                Decoder::Boolean,
            ),
    {
        channel_query(channel_id, ChannelField::BwLimit, Decoder::Boolean)
    }

    /// Turns the bandwidth limit of a channel on or off.
    pub fn set_channel_bw_limit(channel_id: usize, value: bool) -> (exchange: Exchange)
        ensures
            exchange@ == boolean_set_exchange(
                channel_path_text(channel_id as nat, ChannelField::BwLimit),
                value,
            ),
    {
        channel_set_boolean(channel_id, ChannelField::BwLimit, value)
    }

    /// Asks whether a channel is displayed.
    pub fn get_channel_display(channel_id: usize) -> (exchange: Exchange)
        ensures
            exchange@ == query_exchange(
                channel_path_text(channel_id as nat, ChannelField::Display),
                Decoder::Boolean,
            ),
    {
        channel_query(channel_id, ChannelField::Display, Decoder::Boolean)
    }

    /// Turns the display of a channel on or off.
    pub fn set_channel_display(channel_id: usize, value: bool) -> (exchange: Exchange)
        ensures
            exchange@ == boolean_set_exchange(
                channel_path_text(channel_id as nat, ChannelField::Display),
                value,
            ),
    {
        channel_set_boolean(channel_id, ChannelField::Display, value)
    }

    /// Asks whether a channel is inverted.
    pub fn get_channel_invert(channel_id: usize) -> (exchange: Exchange)
        ensures
            exchange@ == query_exchange(
                channel_path_text(channel_id as nat, ChannelField::Invert),
                Decoder::Boolean,
            ),
    {
        channel_query(channel_id, ChannelField::Invert, Decoder::Boolean)
    }

    /// Turns the inversion of a channel on or off.
    pub fn set_channel_invert(channel_id: usize, value: bool) -> (exchange: Exchange)
        ensures
            exchange@ == boolean_set_exchange(
                channel_path_text(channel_id as nat, ChannelField::Invert),
                value,
            ),
    {
        channel_set_boolean(channel_id, ChannelField::Invert, value)
    }

    /// Asks whether the fine adjustment of a channel's scale is on.
    pub fn get_channel_vernier(channel_id: usize) -> (exchange: Exchange)
        ensures
            exchange@ == query_exchange(
                channel_path_text(channel_id as nat, ChannelField::Vernier),
                Decoder::Boolean,
            ),
    {
        channel_query(channel_id, ChannelField::Vernier, Decoder::Boolean)
    }

    /// Turns the fine adjustment of a channel's scale on or off.
    pub fn set_channel_vernier(channel_id: usize, value: bool) -> (exchange: Exchange)
        ensures
            exchange@ == boolean_set_exchange(
                channel_path_text(channel_id as nat, ChannelField::Vernier),
                value,
            ),
    {
        channel_set_boolean(channel_id, ChannelField::Vernier, value)
    }

    /// Asks for the coupling of a channel.
    pub fn get_channel_coupling(channel_id: usize) -> (exchange: Exchange)
        ensures
            exchange@ == query_exchange(
                channel_path_text(channel_id as nat, ChannelField::Coupling),
                Decoder::Text,
            ),
    {
        channel_query(channel_id, ChannelField::Coupling, Decoder::Text)
    }

    /// Asks for the vertical offset of a channel.
    pub fn get_channel_offset(channel_id: usize) -> (exchange: Exchange)
        ensures
            exchange@ == query_exchange(
                channel_path_text(channel_id as nat, ChannelField::Offset),
                Decoder::Numeric,
            ),
    {
        channel_query(channel_id, ChannelField::Offset, Decoder::Numeric)
    }

    /// Sets the vertical offset of a channel.
    pub fn set_channel_offset(channel_id: usize, value: &Decimal) -> (exchange: Exchange)
        ensures
            exchange@ == set_exchange(
                channel_path_text(channel_id as nat, ChannelField::Offset),
                value@.text(),
            ),
    {
        channel_set_numeric(channel_id, ChannelField::Offset, value)
    }

    /// Asks for the vertical scale of a channel.
    pub fn get_channel_scale(channel_id: usize) -> (exchange: Exchange)
        ensures
            exchange@ == query_exchange(
                channel_path_text(channel_id as nat, ChannelField::Scale),
                Decoder::Numeric,
            ),
    {
        channel_query(channel_id, ChannelField::Scale, Decoder::Numeric)
    }

    /// Sets the vertical scale of a channel.
    pub fn set_channel_scale(channel_id: usize, value: &Decimal) -> (exchange: Exchange)
        ensures
            exchange@ == set_exchange(
                channel_path_text(channel_id as nat, ChannelField::Scale),
                value@.text(),
            ),
    {
        channel_set_numeric(channel_id, ChannelField::Scale, value)
    }

    /// Asks for the probe ratio of a channel.
    pub fn get_channel_probe(channel_id: usize) -> (exchange: Exchange)
        ensures
            exchange@ == query_exchange(
                channel_path_text(channel_id as nat, ChannelField::Probe),
                Decoder::Numeric,
            ),
    {
        channel_query(channel_id, ChannelField::Probe, Decoder::Numeric)
    }

    /// Asks the instrument to identify itself. The answer is read as text;
    /// one that is not UTF-8 gives a fixed text and no error.
    pub fn read_idn() -> (exchange: Exchange)
        ensures
            exchange@ == identification_exchange(),
    {
        Exchange::Query { request: "*IDN?".as_bytes_vec(), decoder: Decoder::Identification }
    }

    /// The exchange that asks for the boolean parameter at an index, or the
    /// refusal of an index that the registry does not declare.
    pub fn get_boolean_at(index: usize) -> (planned: Result<Exchange, Error>)
        ensures
            match BooleanIndex::at(index as nat) {
                Some(parameter) => planned matches Ok(exchange) && exchange@ == query_exchange(
                    parameter.path_text(),
                    Decoder::Boolean,
                ),
                None => planned matches Err(error) && error@ == invalid_index(),
            },
    {
        match BooleanIndex::from_repr(index) {
            Some(parameter) => Ok(query(parameter.path(), Decoder::Boolean)),
            None => Err(Error::InvalidArgument("Invalid Index".to_owned())),
        }
    }

    /// The exchange that sets the boolean parameter at an index, or the
    /// refusal of an index that the registry does not declare.
    pub fn set_boolean_at(index: usize, value: bool) -> (planned: Result<Exchange, Error>)
        ensures
            match BooleanIndex::at(index as nat) {
                Some(parameter) => planned matches Ok(exchange) && exchange@
                    == boolean_set_exchange(parameter.path_text(), value),
                None => planned matches Err(error) && error@ == invalid_index(),
            },
    {
        match BooleanIndex::from_repr(index) {
            Some(parameter) => Ok(Self::set_boolean_parameter(parameter.path(), value)),
            None => Err(Error::InvalidArgument("Invalid Index".to_owned())),
        }
    }

    /// The exchange that asks for the text parameter at an index, or the
    /// refusal of an index that the registry does not declare. Scale and
    /// probe are read as numbers and shown by their labels.
    pub fn get_string_at(index: usize) -> (planned: Result<Exchange, Error>)
        ensures
            match StringIndex::at(index as nat) {
                Some(parameter) => planned matches Ok(exchange) && exchange@ == query_exchange(
                    parameter.path_text(),
                    parameter.reading_decoder(),
                ),
                None => planned matches Err(error) && error@ == invalid_index(),
            },
    {
        match StringIndex::from_repr(index) {
            Some(parameter) => Ok(query(parameter.path(), parameter.decoder())),
            None => Err(Error::InvalidArgument("Invalid Index".to_owned())),
        }
    }

    /// The exchange that sets the text parameter at an index to the given
    /// text, whatever it is, or the refusal of an index that the registry
    /// does not declare.
    pub fn set_string_at(index: usize, value: &String) -> (planned: Result<Exchange, Error>)
        ensures
            match StringIndex::at(index as nat) {
                Some(parameter) => planned matches Ok(exchange) && exchange@ == set_exchange(
                    parameter.path_text(),
                    value@,
                ),
                None => planned matches Err(error) && error@ == invalid_index(),
            },
    {
        match StringIndex::from_repr(index) {
            Some(parameter) => Ok(Self::set_string_parameter(parameter.path(), value)),
            None => Err(Error::InvalidArgument("Invalid Index".to_owned())),
        }
    }
}

} // verus!
