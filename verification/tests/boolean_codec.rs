use hantek_dso2c10::scpi_boolean::invalid_boolean_message;
use hantek_dso2c10::ScpiBoolean;

#[test]
fn decoding_inverts_encoding_for_both_booleans() {
    for value in [true, false] {
        let encoded = ScpiBoolean::new(value);
        let long = ScpiBoolean::from_str_case_insensitive(encoded.to_str()).unwrap();
        assert_eq!(long.value(), value);
        let digit = ScpiBoolean::from_str_case_insensitive(encoded.to_digital_str()).unwrap();
        assert_eq!(digit.value(), value);
        let bytes = encoded.to_digital_str().as_bytes().to_vec();
        assert_eq!(ScpiBoolean::from_vec_ascii(&bytes).unwrap().value(), value);
        let bytes = encoded.to_str().as_bytes().to_vec();
        assert_eq!(ScpiBoolean::from_vec_ascii(&bytes).unwrap().value(), value);
    }
}

#[test]
fn encodes_the_long_and_the_digit_form() {
    assert_eq!(ScpiBoolean::new(true).to_str(), "ON");
    assert_eq!(ScpiBoolean::new(false).to_str(), "OFF");
    assert_eq!(ScpiBoolean::new(true).to_digital_str(), "1");
    assert_eq!(ScpiBoolean::new(false).to_digital_str(), "0");
}

#[test]
fn decodes_true_in_all_its_forms() {
    for text in ["ON", "on", "On", "oN", "1"] {
        assert!(ScpiBoolean::from_str_case_insensitive(text).unwrap().value(), "{}", text);
    }
}

#[test]
fn decodes_false_in_all_its_forms() {
    for text in ["OFF", "off", "Off", "oFf", "ofF", "0"] {
        assert!(!ScpiBoolean::from_str_case_insensitive(text).unwrap().value(), "{}", text);
    }
}

#[test]
fn refuses_what_is_no_boolean() {
    let refused = ScpiBoolean::from_str_case_insensitive("bogus");
    assert_eq!(refused.err(), Some("Invalid boolean value: \"bogus\"".to_string()));
}

#[test]
fn refuses_near_misses() {
    for text in ["", " on", "on ", "ON\n", "o", "of", "offf", "onn", "2", "01", "true", "yes", "\u{212a}"] {
        let refused = ScpiBoolean::from_str_case_insensitive(text);
        assert_eq!(refused.err(), Some(format!("Invalid boolean value: {:?}", text)), "{:?}", text);
    }
}

#[test]
fn decodes_bytes_as_text_first() {
    assert!(ScpiBoolean::from_vec_ascii(&b"oN".to_vec()).unwrap().value());
    assert!(!ScpiBoolean::from_vec_ascii(&b"0".to_vec()).unwrap().value());
    let refused = ScpiBoolean::from_vec_ascii(&b"bogus".to_vec());
    assert_eq!(refused.err(), Some("Invalid boolean value: \"bogus\"".to_string()));
}

#[test]
fn reports_bytes_that_are_no_text() {
    let bytes: Vec<u8> = vec![0x4f, 0xff];
    let expected = format!("Invalid boolean value: {:?}", String::from_utf8(bytes.clone()).unwrap_err());
    let refused = ScpiBoolean::from_vec_ascii(&bytes);
    assert_eq!(refused.err(), Some(expected));
}

#[test]
fn builds_the_message_around_what_is_shown() {
    assert_eq!(invalid_boolean_message("<payload>"), "Invalid boolean value: <payload>");
    assert_eq!(invalid_boolean_message(""), "Invalid boolean value: ");
}

#[test]
fn converts_from_and_into_bool() {
    let on: ScpiBoolean = true.into();
    assert!(on.value());
    let off = ScpiBoolean::from(false);
    assert!(!off.value());
    let back: bool = ScpiBoolean::new(true).into();
    assert!(back);
    assert!(!bool::from(ScpiBoolean::new(false)));
}

#[test]
fn parses_with_from_str() {
    let parsed: ScpiBoolean = "Off".parse().unwrap();
    assert!(!parsed.value());
    let refused: Result<ScpiBoolean, String> = "maybe".parse();
    assert_eq!(refused.err(), Some("Invalid boolean value: \"maybe\"".to_string()));
}
