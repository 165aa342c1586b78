use hantek_dso2c10::decimal::Decimal;
use hantek_dso2c10::quantize::{probe_label, scale_label};

fn scale(literal: &str) -> String {
    scale_label(&Decimal::parse(literal.as_bytes()).unwrap())
}

fn probe(literal: &str) -> String {
    probe_label(&Decimal::parse(literal.as_bytes()).unwrap())
}

#[test]
fn labels_every_step_of_the_scale() {
    assert_eq!(scale("0.1"), "100mV");
    assert_eq!(scale("0.2"), "200mV");
    assert_eq!(scale("0.5"), "500mV");
    assert_eq!(scale("1.0"), "1V");
    assert_eq!(scale("2.0"), "2V");
    assert_eq!(scale("5.0"), "5V");
    assert_eq!(scale("10.0"), "10V");
}

#[test]
fn labels_every_step_of_the_probe() {
    assert_eq!(probe("1.0"), "1");
    assert_eq!(probe("10.0"), "10");
    assert_eq!(probe("100.0"), "100");
    assert_eq!(probe("1000.0"), "1000");
}

#[test]
fn labels_a_step_however_it_is_written() {
    assert_eq!(scale("1"), "1V");
    assert_eq!(scale("1.000000e+00"), "1V");
    assert_eq!(scale("5.000000e-01"), "500mV");
    assert_eq!(scale("+.1"), "100mV");
    assert_eq!(scale("100e-1"), "10V");
    assert_eq!(probe("1e3"), "1000");
    assert_eq!(probe("1.0E2"), "100");
}

#[test]
fn shows_other_values_by_their_digits() {
    assert_eq!(scale("3.3"), "3.3");
    assert_eq!(scale("0.05"), "0.05");
    assert_eq!(scale("20"), "20");
    assert_eq!(scale("0.002"), "0.002");
    assert_eq!(scale("1.0000001"), "1.0000001");
    assert_eq!(scale("0"), "0");
    assert_eq!(probe("3.3"), "3.3");
    assert_eq!(probe("0.1"), "0.1");
    assert_eq!(probe("10000"), "10000");
    assert_eq!(probe("2"), "2");
}

#[test]
fn a_negative_step_is_no_step() {
    assert_eq!(scale("-1"), "-1");
    assert_eq!(scale("-0.5"), "-0.5");
    assert_eq!(probe("-10"), "-10");
}

#[test]
fn normalizes_the_digits_it_shows() {
    assert_eq!(scale("3.30"), "3.3");
    assert_eq!(scale("3.3e0"), "3.3");
    assert_eq!(probe("2.50E+01"), "25");
}
