use anixe_cli::enrich::EnrichError;
use anixe_cli::Config;
use anixe_cli::pipeline::{output_header, parse_input_line, run_pipeline, PipelineError};

const HOTELS: &str = "{\"id\":\"H1\",\"city_code\":\"EC\",\"name\":\"Grand\",\"category\":4.5,\"country_code\":\"FR\",\"city\":\"Paris\"}\n";
const ROOMS: &str = "H1|src1|Nice Room|R1\n";

#[test]
fn config_defaults_the_output_name_to_nothing() {
    let config = Config { input_filename: "input.csv".to_string(), output_filename: None };
    assert_eq!(config.input_filename, "input.csv");
    assert!(config.output_filename.is_none());
}

#[test]
fn header_labels_match_the_output_columns() {
    assert_eq!(
        output_header(),
        "room_type meal;room_code;source;hotel_name;city_name;city_code;hotel_category;pax;adults;children;room_name;checkin;checkout;price"
    );
}

#[test]
fn input_line_parses_ten_columns() {
    let rec = parse_input_line("EC|H1|Double|R1|BB|20010914|2|1|150.00|src1").unwrap();
    assert_eq!(rec.city_code, "EC");
    assert_eq!(rec.hotel_code, "H1");
    assert_eq!(rec.room_type, "Double");
    assert_eq!(rec.room_code, "R1");
    assert_eq!(rec.meal, "BB");
    assert_eq!(rec.checkin, "20010914");
    assert_eq!(rec.adults, 2);
    assert_eq!(rec.children, 1);
    assert_eq!(rec.price, "150.00");
    assert_eq!(rec.source, "src1");
}

#[test]
fn input_line_rejects_bad_rows() {
    assert!(parse_input_line("EC|H1|Double|R1|BB|20010914|2|1|150.00").is_none());
    assert!(parse_input_line("EC|H1|Double|R1|BB|20010914|two|1|150.00|src1").is_none());
    assert!(parse_input_line("EC|H1|Double|R1|BB|20010914|2|1|x|src1").is_none());
    assert!(parse_input_line("EC|H1|Double|R1|BB|20010914|4294967296|1|150.00|src1").is_none());
}

#[test]
fn one_row_end_to_end() {
    let input = "city_code|hotel_code|room_type|room_code|meal|checkin|adults|children|price|source\nEC|H1|Double|R1|BB|20010914|2|1|150.00|src1\n";
    let out = run_pipeline(input, HOTELS, ROOMS).unwrap();
    let expected = "room_type meal;room_code;source;hotel_name;city_name;city_code;hotel_category;pax;adults;children;room_name;checkin;checkout;price\nDouble BB;R1;src1;Grand;Paris;EC;4.5;3;2;1;Nice Room;2001-09-14;2001-09-15;50.00\n";
    assert_eq!(out, expected);
}

#[test]
fn rows_come_out_in_input_order_and_blank_lines_are_skipped() {
    let input = "h|h|h|h|h|h|h|h|h|h\nEC|H1|Double|R1|BB|20010914|2|1|150.00|src1\n\nEC|H9|Single|R9|HB|20201231|1|0|80|src9\n";
    let out = run_pipeline(input, HOTELS, ROOMS).unwrap();
    let lines: Vec<&str> = out.lines().collect();
    assert_eq!(lines.len(), 3);
    assert_eq!(
        lines[1],
        "Double BB;R1;src1;Grand;Paris;EC;4.5;3;2;1;Nice Room;2001-09-14;2001-09-15;50.00"
    );
    assert_eq!(lines[2], "Single HB;R9;src9;;;EC;0.0;1;1;0;;2020-12-31;2021-01-01;80.00");
}

#[test]
fn empty_input_yields_only_the_header() {
    let out = run_pipeline("", HOTELS, ROOMS).unwrap();
    assert_eq!(
        out,
        "room_type meal;room_code;source;hotel_name;city_name;city_code;hotel_category;pax;adults;children;room_name;checkin;checkout;price\n"
    );
}

#[test]
fn malformed_hotel_line_aborts_before_any_output() {
    let input = "h|h|h|h|h|h|h|h|h|h\nEC|H1|Double|R1|BB|20010914|2|1|150.00|src1\n";
    let r = run_pipeline(input, "{broken\n", ROOMS);
    assert_eq!(r, Err(PipelineError::HotelsLoad { line_number: 1 }));
}

#[test]
fn malformed_room_name_line_aborts_before_any_output() {
    let input = "h|h|h|h|h|h|h|h|h|h\nEC|H1|Double|R1|BB|20010914|2|1|150.00|src1\n";
    let r = run_pipeline(input, HOTELS, "H1|only|three\n");
    assert_eq!(r, Err(PipelineError::RoomNamesLoad { line_number: 1 }));
}

#[test]
fn malformed_input_row_aborts_with_its_line_number() {
    let input = "h|h|h|h|h|h|h|h|h|h\nEC|H1|Double|R1|BB|20010914|2|1|150.00|src1\nbad row\n";
    let r = run_pipeline(input, HOTELS, ROOMS);
    assert_eq!(r, Err(PipelineError::InputFormat { line_number: 3 }));
}

#[test]
fn failing_row_aborts_with_its_error() {
    let input = "h|h|h|h|h|h|h|h|h|h\nEC|H1|Double|R1|BB|20010230|2|1|150.00|src1\n";
    let r = run_pipeline(input, HOTELS, ROOMS);
    assert_eq!(
        r,
        Err(PipelineError::Enrich { line_number: 2, error: EnrichError::DateParse })
    );
}

#[test]
fn zero_pax_row_aborts_the_run() {
    let input = "h|h|h|h|h|h|h|h|h|h\nEC|H1|Double|R1|BB|20010914|0|0|150.00|src1\n";
    let r = run_pipeline(input, HOTELS, ROOMS);
    assert_eq!(
        r,
        Err(PipelineError::Enrich { line_number: 2, error: EnrichError::DivisionByZero })
    );
}
