use ttywrite::config::{
    settings_match, CharWidth, FlowControl, LinkConfig, LinkSettings, StopBits,
};
use ttywrite::parse::{
    parse_baud_rate, parse_flow_control, parse_stop_bits, parse_timeout, parse_width, ParseError,
};

#[test]
fn defaults_are_named() {
    let c = LinkConfig::new();
    assert_eq!(c.baud_rate, 115200);
    assert_eq!(c.char_width, CharWidth::Bits8);
    assert_eq!(c.stop_bits, StopBits::Stop1);
    assert_eq!(c.flow_control, FlowControl::FlowNone);
    assert_eq!(c.timeout_secs, 10);
}

#[test]
fn requested_settings_hold_every_field() {
    let c = LinkConfig::new();
    let s = c.requested_settings();
    assert_eq!(s.baud_rate, Some(115200));
    assert_eq!(s.char_width, Some(CharWidth::Bits8));
    assert_eq!(s.stop_bits, Some(StopBits::Stop1));
    assert_eq!(s.flow_control, Some(FlowControl::FlowNone));
    assert!(settings_match(&c, &s));
    let off = LinkSettings { flow_control: Some(FlowControl::FlowSoftware), ..s };
    assert!(!settings_match(&c, &off));
}

#[test]
fn baud_rates_parse_as_decimal() {
    assert_eq!(parse_baud_rate("115200"), Ok(115200));
    assert_eq!(parse_baud_rate("9600"), Ok(9600));
    assert_eq!(parse_baud_rate("0"), Ok(0));
    assert_eq!(parse_baud_rate(""), Err(ParseError::InvalidNumber));
    assert_eq!(parse_baud_rate("96OO"), Err(ParseError::InvalidNumber));
    assert_eq!(parse_baud_rate("-1"), Err(ParseError::InvalidNumber));
    assert_eq!(parse_baud_rate("99999999999999999999999"), Err(ParseError::OutOfRange));
}

#[test]
fn timeouts_parse_up_to_u64_max() {
    assert_eq!(parse_timeout("10"), Ok(10));
    assert_eq!(parse_timeout("0"), Ok(0));
    assert_eq!(parse_timeout("18446744073709551615"), Ok(u64::MAX));
    assert_eq!(parse_timeout("18446744073709551616"), Err(ParseError::OutOfRange));
    assert_eq!(parse_timeout("1 0"), Err(ParseError::InvalidNumber));
}

#[test]
fn widths_parse() {
    assert_eq!(parse_width("5"), Ok(CharWidth::Bits5));
    assert_eq!(parse_width("6"), Ok(CharWidth::Bits6));
    assert_eq!(parse_width("7"), Ok(CharWidth::Bits7));
    assert_eq!(parse_width("8"), Ok(CharWidth::Bits8));
    assert_eq!(parse_width("9"), Err(ParseError::UnknownValue));
    assert_eq!(parse_width("08"), Err(ParseError::UnknownValue));
}

#[test]
fn stop_bits_parse() {
    assert_eq!(parse_stop_bits("1"), Ok(StopBits::Stop1));
    assert_eq!(parse_stop_bits("2"), Ok(StopBits::Stop2));
    assert_eq!(parse_stop_bits("3"), Err(ParseError::UnknownValue));
}

#[test]
fn flow_control_parses() {
    assert_eq!(parse_flow_control("none"), Ok(FlowControl::FlowNone));
    assert_eq!(parse_flow_control("software"), Ok(FlowControl::FlowSoftware));
    assert_eq!(parse_flow_control("hardware"), Ok(FlowControl::FlowHardware));
    assert_eq!(parse_flow_control("Hardware"), Err(ParseError::UnknownValue));
    assert_eq!(parse_flow_control(""), Err(ParseError::UnknownValue));
}
