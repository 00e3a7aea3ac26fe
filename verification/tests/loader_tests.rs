use anixe_cli::hotels::{get_hotels, parse_hotel_line};
use anixe_cli::records::LoadError;
use anixe_cli::room_names::{get_room_names, parse_room_name_line};

#[test]
fn hotel_line_parses_all_six_fields() {
    let line = "{\"id\": \"H1\", \"city_code\": \"EC\", \"name\": \"Grand\", \"category\": 4.5, \"country_code\": \"FR\", \"city\": \"Paris\"}";
    let h = parse_hotel_line(line).unwrap();
    assert_eq!(h.id, "H1");
    assert_eq!(h.city_code, "EC");
    assert_eq!(h.name, "Grand");
    assert_eq!(h.category, "4.5");
    assert_eq!(h.country_code, "FR");
    assert_eq!(h.city, "Paris");
}

#[test]
fn hotel_line_accepts_any_member_order_and_ignores_unknown_members() {
    let line = "{\"city\":\"Paris\",\"extra\":\"x\",\"category\":4,\"name\":\"Grand\",\"city_code\":\"EC\",\"country_code\":\"FR\",\"id\":\"H1\"}";
    let h = parse_hotel_line(line).unwrap();
    assert_eq!(h.id, "H1");
    assert_eq!(h.category, "4");
}

#[test]
fn hotel_line_keeps_category_text_verbatim() {
    let line = "{\"id\":\"H1\",\"city_code\":\"EC\",\"name\":\"N\",\"category\":-12.50,\"country_code\":\"FR\",\"city\":\"P\"}";
    let h = parse_hotel_line(line).unwrap();
    assert_eq!(h.category, "-12.50");
}

#[test]
fn hotel_line_rejects_missing_duplicate_or_mistyped_fields() {
    // name missing
    assert!(parse_hotel_line(
        "{\"id\":\"H1\",\"city_code\":\"EC\",\"category\":4.5,\"country_code\":\"FR\",\"city\":\"P\"}"
    )
    .is_none());
    // id twice
    assert!(parse_hotel_line(
        "{\"id\":\"H1\",\"id\":\"H2\",\"city_code\":\"EC\",\"name\":\"N\",\"category\":4.5,\"country_code\":\"FR\",\"city\":\"P\"}"
    )
    .is_none());
    // category is a string, not a number
    assert!(parse_hotel_line(
        "{\"id\":\"H1\",\"city_code\":\"EC\",\"name\":\"N\",\"category\":\"4.5\",\"country_code\":\"FR\",\"city\":\"P\"}"
    )
    .is_none());
    // not an object at all
    assert!(parse_hotel_line("[1, 2]").is_none());
    assert!(parse_hotel_line("").is_none());
    // trailing garbage after the object
    assert!(parse_hotel_line(
        "{\"id\":\"H1\",\"city_code\":\"EC\",\"name\":\"N\",\"category\":4.5,\"country_code\":\"FR\",\"city\":\"P\"} x"
    )
    .is_none());
}

#[test]
fn get_hotels_loads_every_line() {
    let text = "{\"id\":\"H1\",\"city_code\":\"EC\",\"name\":\"Grand\",\"category\":4.5,\"country_code\":\"FR\",\"city\":\"Paris\"}\n{\"id\":\"H2\",\"city_code\":\"LC\",\"name\":\"Petit\",\"category\":3,\"country_code\":\"FR\",\"city\":\"Lyon\"}\n";
    let hotels = get_hotels(text).unwrap();
    assert_eq!(hotels.len(), 2);
    assert_eq!(hotels[0].id, "H1");
    assert_eq!(hotels[1].name, "Petit");
}

#[test]
fn get_hotels_fails_on_the_first_malformed_line() {
    let text = "{\"id\":\"H1\",\"city_code\":\"EC\",\"name\":\"Grand\",\"category\":4.5,\"country_code\":\"FR\",\"city\":\"Paris\"}\nnot json\n";
    assert_eq!(get_hotels(text), Err(LoadError { line_number: 2 }));
}

#[test]
fn room_name_line_splits_into_four_fields() {
    let r = parse_room_name_line("H1|src1|Nice Room|R1").unwrap();
    assert_eq!(r.id, "H1");
    assert_eq!(r.source, "src1");
    assert_eq!(r.room_name, "Nice Room");
    assert_eq!(r.room_code, "R1");
}

#[test]
fn room_name_line_rejects_wrong_column_counts() {
    assert!(parse_room_name_line("H1|src1|Nice Room").is_none());
    assert!(parse_room_name_line("H1|src1|Nice Room|R1|extra").is_none());
}

#[test]
fn get_room_names_loads_rows_and_skips_blank_lines() {
    let text = "H1|src1|Nice Room|R1\n\nH2|src2|Suite|R2\n";
    let rooms = get_room_names(text).unwrap();
    assert_eq!(rooms.len(), 2);
    assert_eq!(rooms[1].room_name, "Suite");
}

#[test]
fn get_room_names_fails_on_the_first_malformed_line() {
    let text = "H1|src1|Nice Room|R1\nH2|broken\n";
    assert_eq!(get_room_names(text), Err(LoadError { line_number: 2 }));
}
