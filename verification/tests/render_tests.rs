use ups_exporter::metrics;
use ups_exporter::record::ParserError;
use ups_exporter::record::StatusRecord;
use ups_exporter::render::render;

const SAMPLE: &str = "Utility Voltage..... 120 V\n   Output Voltage..... 120 V\n   Battery Capacity.... 100 %\n   Remaining Runtime... 45 min.\n   Load................ 60 Watt(25 %)\n";

const SAMPLE_DOCUMENT: &str = "# HELP ups_input_voltage Utility voltage\n\
# TYPE ups_input_voltage gauge\n\
ups_input_voltage 120\n\
# HELP ups_output_voltage Output voltage\n\
# TYPE ups_output_voltage gauge\n\
ups_output_voltage 120\n\
# HELP ups_battery_capacity Battery capacity\n\
# TYPE ups_battery_capacity gauge\n\
ups_battery_capacity 100\n\
# HELP ups_remaining_runtime Remaining runtime\n\
# TYPE ups_remaining_runtime gauge\n\
ups_remaining_runtime 45\n\
# HELP ups_load_watts Load in watts\n\
# TYPE ups_load_watts gauge\n\
ups_load_watts 60\n\
# HELP ups_load_percent Load percentage\n\
# TYPE ups_load_percent gauge\n\
ups_load_percent 25\n";

fn sample_record() -> StatusRecord {
    StatusRecord {
        utility_voltage: 120,
        output_voltage: 120,
        battery_capacity: 100,
        remaining_runtime: 45,
        load_watts: 60,
        load_percent: 25,
    }
}

#[test]
fn renders_sample_record() {
    assert_eq!(render(&sample_record()), SAMPLE_DOCUMENT.as_bytes().to_vec());
}

#[test]
fn renders_eighteen_lines_in_field_order() {
    let out = render(&sample_record());
    let text = String::from_utf8(out).unwrap();
    assert!(text.ends_with('\n'));
    let lines: Vec<&str> = text.lines().collect();
    assert_eq!(lines.len(), 18);
    let names = [
        "ups_input_voltage",
        "ups_output_voltage",
        "ups_battery_capacity",
        "ups_remaining_runtime",
        "ups_load_watts",
        "ups_load_percent",
    ];
    for (i, name) in names.iter().enumerate() {
        assert!(lines[3 * i].starts_with(&format!("# HELP {} ", name)));
        assert_eq!(lines[3 * i + 1], format!("# TYPE {} gauge", name));
        assert!(lines[3 * i + 2].starts_with(&format!("{} ", name)));
    }
}

#[test]
fn render_is_total_on_extreme_records() {
    let r = StatusRecord {
        utility_voltage: u32::MAX,
        output_voltage: 0,
        battery_capacity: u8::MAX,
        remaining_runtime: u32::MAX,
        load_watts: 0,
        load_percent: 0,
    };
    let text = String::from_utf8(render(&r)).unwrap();
    assert!(text.contains("ups_input_voltage 4294967295\n"));
    assert!(text.contains("ups_output_voltage 0\n"));
    assert!(text.contains("ups_battery_capacity 255\n"));
}

#[test]
fn render_is_deterministic() {
    let r = sample_record();
    assert_eq!(render(&r), render(&r));
}

#[test]
fn pipeline_end_to_end() {
    let out = metrics(SAMPLE.as_bytes()).unwrap();
    assert_eq!(out, SAMPLE_DOCUMENT.as_bytes().to_vec());
}

#[test]
fn pipeline_repeated_calls_are_byte_identical() {
    let first = metrics(SAMPLE.as_bytes()).unwrap();
    let second = metrics(SAMPLE.as_bytes()).unwrap();
    assert_eq!(first, second);
}

#[test]
fn pipeline_forwards_parse_errors() {
    assert_eq!(
        metrics(b"no status here"),
        Err(ParserError::FormatMismatchError)
    );
}
