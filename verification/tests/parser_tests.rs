use ups_exporter::parser::parse;
use ups_exporter::record::ParserError;
use ups_exporter::record::StatusRecord;

const SAMPLE: &str = "Utility Voltage..... 120 V\n   Output Voltage..... 120 V\n   Battery Capacity.... 100 %\n   Remaining Runtime... 45 min.\n   Load................ 60 Watt(25 %)\n";

#[test]
fn parses_sample_text() {
    let r = parse(SAMPLE.as_bytes()).unwrap();
    assert_eq!(
        r,
        StatusRecord {
            utility_voltage: 120,
            output_voltage: 120,
            battery_capacity: 100,
            remaining_runtime: 45,
            load_watts: 60,
            load_percent: 25,
        }
    );
}

#[test]
fn ignores_leading_and_trailing_lines() {
    let text = format!(
        "\nThe UPS information shows as following:\n\n\tProperties:\n{}\n\tstuff after\n",
        SAMPLE
    );
    let r = parse(text.as_bytes()).unwrap();
    assert_eq!(r.utility_voltage, 120);
    assert_eq!(r.load_percent, 25);
}

#[test]
fn whitespace_and_filler_runs_may_vary() {
    let text = "Utility Voltage. 1 V\n \t Output Voltage........        2 V\n Battery Capacity . . 3 %\n  Remaining Runtime.................. 4 min.\n   Load 5 Watt(6";
    let r = parse(text.as_bytes()).unwrap();
    assert_eq!(r.utility_voltage, 1);
    assert_eq!(r.output_voltage, 2);
    assert_eq!(r.battery_capacity, 3);
    assert_eq!(r.remaining_runtime, 4);
    assert_eq!(r.load_watts, 5);
    assert_eq!(r.load_percent, 6);
}

#[test]
fn missing_battery_capacity_line_is_format_mismatch() {
    let text = "Utility Voltage..... 120 V\n   Output Voltage..... 120 V\n   Remaining Runtime... 45 min.\n   Load................ 60 Watt(25 %)\n";
    assert_eq!(parse(text.as_bytes()), Err(ParserError::FormatMismatchError));
}

#[test]
fn empty_text_is_format_mismatch() {
    assert_eq!(parse(&[]), Err(ParserError::FormatMismatchError));
}

#[test]
fn shuffled_line_order_is_format_mismatch() {
    let text = "Output Voltage..... 120 V\n   Utility Voltage..... 120 V\n   Battery Capacity.... 100 %\n   Remaining Runtime... 45 min.\n   Load................ 60 Watt(25 %)\n";
    assert_eq!(parse(text.as_bytes()), Err(ParserError::FormatMismatchError));
}

#[test]
fn nothing_after_min_is_format_mismatch() {
    // the layout expects one free byte after "min" before the line break
    let text = "Utility Voltage..... 120 V\n   Output Voltage..... 120 V\n   Battery Capacity.... 100 %\n   Remaining Runtime... 45 min\n   Load................ 60 Watt(25 %)\n";
    assert_eq!(parse(text.as_bytes()), Err(ParserError::FormatMismatchError));
}

#[test]
fn percent_boundaries_parse() {
    for (cap, load) in [(0u8, 100u8), (100u8, 0u8)] {
        let text = format!(
            "Utility Voltage..... 120 V\n Output Voltage..... 120 V\n Battery Capacity.... {} %\n Remaining Runtime... 45 min.\n Load................ 60 Watt({} %)\n",
            cap, load
        );
        let r = parse(text.as_bytes()).unwrap();
        assert_eq!(r.battery_capacity, cap);
        assert_eq!(r.load_percent, load);
    }
}

#[test]
fn oversized_capacity_is_numeric_conversion_error() {
    let text = "Utility Voltage..... 120 V\n Output Voltage..... 120 V\n Battery Capacity.... 300 %\n Remaining Runtime... 45 min.\n Load................ 60 Watt(25 %)\n";
    assert_eq!(
        parse(text.as_bytes()),
        Err(ParserError::NumericConversionError)
    );
}

#[test]
fn oversized_voltage_is_numeric_conversion_error() {
    let text = "Utility Voltage..... 99999999999999999999 V\n Output Voltage..... 120 V\n Battery Capacity.... 100 %\n Remaining Runtime... 45 min.\n Load................ 60 Watt(25 %)\n";
    assert_eq!(
        parse(text.as_bytes()),
        Err(ParserError::NumericConversionError)
    );
}

#[test]
fn greedy_percent_capture_takes_all_digits() {
    // the percent capture is unterminated: it takes every digit after
    // "Watt(", so a run too long for the field is a conversion failure
    let text = "Utility Voltage..... 120 V\n Output Voltage..... 120 V\n Battery Capacity.... 100 %\n Remaining Runtime... 45 min.\n Load................ 60 Watt(12345 %)\n";
    assert_eq!(
        parse(text.as_bytes()),
        Err(ParserError::NumericConversionError)
    );
}

#[test]
fn leading_zeros_are_allowed() {
    let text = "Utility Voltage..... 0120 V\n Output Voltage..... 00 V\n Battery Capacity.... 0100 %\n Remaining Runtime... 045 min.\n Load................ 060 Watt(025 %)\n";
    let r = parse(text.as_bytes()).unwrap();
    assert_eq!(r.utility_voltage, 120);
    assert_eq!(r.output_voltage, 0);
    assert_eq!(r.battery_capacity, 100);
    assert_eq!(r.remaining_runtime, 45);
    assert_eq!(r.load_watts, 60);
    assert_eq!(r.load_percent, 25);
}

#[test]
fn largest_values_parse() {
    let text = "Utility Voltage..... 4294967295 V\n Output Voltage..... 4294967295 V\n Battery Capacity.... 255 %\n Remaining Runtime... 4294967295 min.\n Load................ 4294967295 Watt(255 %)\n";
    let r = parse(text.as_bytes()).unwrap();
    assert_eq!(r.utility_voltage, u32::MAX);
    assert_eq!(r.battery_capacity, u8::MAX);
    assert_eq!(r.remaining_runtime, u32::MAX);
    assert_eq!(r.load_watts, u32::MAX);
    assert_eq!(r.load_percent, u8::MAX);
}

#[test]
fn value_just_past_u32_fails() {
    let text = "Utility Voltage..... 4294967296 V\n Output Voltage..... 1 V\n Battery Capacity.... 1 %\n Remaining Runtime... 1 min.\n Load................ 1 Watt(1 %)\n";
    assert_eq!(
        parse(text.as_bytes()),
        Err(ParserError::NumericConversionError)
    );
}
