use hantek_dso2c10::decimal::Decimal;
use hantek_dso2c10::error::Error;
use hantek_dso2c10::exchange::Decoder;
use hantek_dso2c10::value::{
    parse_boolean, parse_identification, parse_numeric, parse_text, Value,
};

fn not_text() -> String {
    "Cannot convert response into string".to_string()
}

fn not_number() -> String {
    "Cannot convert response into float".to_string()
}

#[test]
fn boolean_responses_in_every_form() {
    for response in ["ON", "on", "On", "1"] {
        assert_eq!(parse_boolean(&response.as_bytes().to_vec()), Ok(true));
    }
    for response in ["OFF", "off", "oFF", "0"] {
        assert_eq!(parse_boolean(&response.as_bytes().to_vec()), Ok(false));
    }
}

#[test]
fn malformed_boolean_is_a_decode_error() {
    assert_eq!(
        parse_boolean(&b"bogus".to_vec()),
        Err(Error::DecodeError("Invalid boolean value: \"bogus\"".to_string()))
    );
    assert_eq!(
        parse_boolean(&b"ON\n".to_vec()),
        Err(Error::DecodeError("Invalid boolean value: \"ON\\n\"".to_string()))
    );
    assert_eq!(
        parse_boolean(&Vec::new()),
        Err(Error::DecodeError("Invalid boolean value: \"\"".to_string()))
    );
}

#[test]
fn boolean_that_is_no_text_is_a_decode_error() {
    let bytes: Vec<u8> = vec![0xc3, 0x28];
    let shown = format!("{:?}", String::from_utf8(bytes.clone()).unwrap_err());
    assert_eq!(
        parse_boolean(&bytes),
        Err(Error::DecodeError(format!("Invalid boolean value: {}", shown)))
    );
}

#[test]
fn text_comes_back_unchanged() {
    assert_eq!(parse_text(b"DC".to_vec()), Ok("DC".to_string()));
    assert_eq!(parse_text(b" AC \r\n".to_vec()), Ok(" AC \r\n".to_string()));
    assert_eq!(parse_text(Vec::new()), Ok(String::new()));
    assert_eq!(parse_text("\u{b5}V \u{2126}".as_bytes().to_vec()), Ok("\u{b5}V \u{2126}".to_string()));
}

#[test]
fn text_that_is_not_utf8_is_a_decode_error() {
    assert_eq!(parse_text(vec![0x44, 0x43, 0xff]), Err(Error::DecodeError(not_text())));
    assert_eq!(parse_text(vec![0xe2, 0x82]), Err(Error::DecodeError(not_text())));
    assert_eq!(parse_text(vec![0xed, 0xa0, 0x80]), Err(Error::DecodeError(not_text())));
}

#[test]
fn numbers_are_read_exactly() {
    assert_eq!(parse_numeric(b"-10".to_vec()), Ok(Decimal::parse(b"-10").unwrap()));
    assert_eq!(parse_numeric(b"0.5".to_vec()).map(|n| n.to_text()), Ok("0.5".to_string()));
    assert_eq!(parse_numeric(b"5.000e-01".to_vec()).map(|n| n.to_text()), Ok("0.5".to_string()));
}

#[test]
fn non_numeric_text_is_a_parse_error() {
    for response in ["", "abc", "1.2.3", "0.5V", "0.5\n", " 0.5", "ON", "inf", "NaN"] {
        assert_eq!(
            parse_numeric(response.as_bytes().to_vec()),
            Err(Error::ParseError(not_number())),
            "{:?}",
            response
        );
    }
    assert_eq!(parse_numeric("\u{0665}".as_bytes().to_vec()), Err(Error::ParseError(not_number())));
}

#[test]
fn a_number_out_of_range_is_a_parse_error() {
    assert_eq!(parse_numeric(b"1e400".to_vec()), Err(Error::ParseError(not_number())));
    assert_eq!(parse_numeric(b"1e-401".to_vec()), Err(Error::ParseError(not_number())));
}

#[test]
fn a_number_that_is_not_utf8_is_a_parse_error() {
    assert_eq!(parse_numeric(vec![0x31, 0xff]), Err(Error::ParseError(not_text())));
    assert_eq!(parse_numeric(vec![0x80]), Err(Error::ParseError(not_text())));
}

#[test]
fn identification_comes_back_unchanged() {
    let idn = "Hantek,DSO2C10,CN2101005004821,1.1.0(220727.00)\n";
    assert_eq!(parse_identification(idn.as_bytes().to_vec()), idn);
    assert_eq!(parse_identification(Vec::new()), "");
}

#[test]
fn identification_that_is_not_utf8_gives_the_fixed_text() {
    assert_eq!(parse_identification(vec![0xff, 0xfe]), "Cannot convert the payload into string");
    assert_eq!(
        parse_identification(vec![0x48, 0x61, 0x6e, 0xc0]),
        "Cannot convert the payload into string"
    );
}

#[test]
fn each_decoder_reads_its_kind() {
    assert_eq!(Decoder::Boolean.decode(b"off".to_vec()), Ok(Value::Boolean(false)));
    assert_eq!(Decoder::Text.decode(b"GND".to_vec()), Ok(Value::Text("GND".to_string())));
    assert_eq!(
        Decoder::Numeric.decode(b"-1.5".to_vec()),
        Ok(Value::Numeric(Decimal::parse(b"-1.5").unwrap()))
    );
    assert_eq!(Decoder::ScaleLabel.decode(b"1.0".to_vec()), Ok(Value::Text("1V".to_string())));
    assert_eq!(Decoder::ScaleLabel.decode(b"0.1".to_vec()), Ok(Value::Text("100mV".to_string())));
    assert_eq!(Decoder::ScaleLabel.decode(b"3.3".to_vec()), Ok(Value::Text("3.3".to_string())));
    assert_eq!(Decoder::ProbeLabel.decode(b"1000.0".to_vec()), Ok(Value::Text("1000".to_string())));
    assert_eq!(Decoder::ProbeLabel.decode(b"3.3".to_vec()), Ok(Value::Text("3.3".to_string())));
    assert_eq!(
        Decoder::Identification.decode(b"Hantek".to_vec()),
        Ok(Value::Text("Hantek".to_string()))
    );
}

#[test]
fn each_decoder_fails_in_its_own_way() {
    assert_eq!(
        Decoder::Boolean.decode(b"2".to_vec()),
        Err(Error::DecodeError("Invalid boolean value: \"2\"".to_string()))
    );
    assert_eq!(Decoder::Text.decode(vec![0xff]), Err(Error::DecodeError(not_text())));
    assert_eq!(Decoder::Numeric.decode(b"x".to_vec()), Err(Error::ParseError(not_number())));
    assert_eq!(Decoder::Numeric.decode(vec![0xff]), Err(Error::ParseError(not_text())));
    assert_eq!(Decoder::ScaleLabel.decode(b"1V".to_vec()), Err(Error::ParseError(not_number())));
    assert_eq!(Decoder::ScaleLabel.decode(vec![0xff]), Err(Error::ParseError(not_text())));
    assert_eq!(Decoder::ProbeLabel.decode(b"".to_vec()), Err(Error::ParseError(not_number())));
    assert_eq!(
        Decoder::Identification.decode(vec![0xff]),
        Ok(Value::Text("Cannot convert the payload into string".to_string()))
    );
}

#[test]
fn an_error_tells_its_message() {
    assert_eq!(Error::InvalidArgument("Invalid Index".to_string()).message(), "Invalid Index");
    assert_eq!(Error::DecodeError(not_text()).message(), "Cannot convert response into string");
    assert_eq!(Error::ParseError(not_number()).message(), "Cannot convert response into float");
}
