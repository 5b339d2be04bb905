use deet::debugger::{BreakSpec, Debugger};
use deet::parse::parse_unsigned;

#[test]
fn parses_addresses() {
    assert_eq!(Debugger::parse_address("0x4011a1"), Some(0x4011a1));
    assert_eq!(Debugger::parse_address("0X4011A1"), Some(0x4011a1));
    assert_eq!(Debugger::parse_address("4011a1"), Some(0x4011a1));
    assert_eq!(Debugger::parse_address("+ff"), Some(0xff));
    assert_eq!(Debugger::parse_address("0x"), None);
    assert_eq!(Debugger::parse_address(""), None);
    assert_eq!(Debugger::parse_address("0xzz"), None);
    assert_eq!(Debugger::parse_address("ffffffffffffffff"), Some(usize::MAX));
    assert_eq!(Debugger::parse_address("10000000000000000"), None);
}

#[test]
fn parses_decimal() {
    assert_eq!(parse_unsigned("42", 0, 10), Some(42));
    assert_eq!(parse_unsigned("x42", 1, 10), Some(42));
    assert_eq!(parse_unsigned("4a", 0, 10), None);
    assert_eq!(parse_unsigned("+", 0, 10), None);
    assert_eq!(parse_unsigned("-1", 0, 10), None);
}

#[test]
fn reads_breakpoint_specs() {
    assert_eq!(Debugger::parse_break_spec("*0x4011a1"), BreakSpec::Address(0x4011a1));
    assert_eq!(Debugger::parse_break_spec("*0xg1"), BreakSpec::BadAddress);
    assert_eq!(Debugger::parse_break_spec("*"), BreakSpec::BadAddress);
    assert_eq!(Debugger::parse_break_spec("15"), BreakSpec::Line(15));
    assert_eq!(Debugger::parse_break_spec("main"), BreakSpec::Function);
}
