use anixe_cli::enrich::{calculate_pax, enrich_record, EnrichError};
use anixe_cli::index::LookupIndex;
use anixe_cli::records::{HotelsRecords, InputRecords, RoomNamesRecords};

fn hotel(id: &str, name: &str, category: &str, city: &str) -> HotelsRecords {
    HotelsRecords {
        id: id.to_string(),
        city_code: "EC".to_string(),
        name: name.to_string(),
        category: category.to_string(),
        country_code: "FR".to_string(),
        city: city.to_string(),
    }
}

fn room(id: &str, source: &str, room_name: &str, room_code: &str) -> RoomNamesRecords {
    RoomNamesRecords {
        id: id.to_string(),
        source: source.to_string(),
        room_name: room_name.to_string(),
        room_code: room_code.to_string(),
    }
}

fn input_row() -> InputRecords {
    InputRecords {
        city_code: "EC".to_string(),
        hotel_code: "H1".to_string(),
        room_type: "Double".to_string(),
        room_code: "R1".to_string(),
        meal: "BB".to_string(),
        checkin: "20010914".to_string(),
        adults: 2,
        children: 1,
        price: "150.00".to_string(),
        source: "src1".to_string(),
    }
}

#[test]
fn main_test_calculate_pax() {
    let pax = calculate_pax(20, 20);
    assert!(pax == 40);

    let pax = calculate_pax(u32::MAX, u32::MAX);
    assert!(pax == 8589934590);
}

#[test]
fn test_test_calculate_pax() {
    let pax = calculate_pax(20, 20);
    assert!(pax == 40);

    let pax = calculate_pax(u32::MAX, u32::MAX);
    assert!(pax == 8589934590);
}

#[test]
fn enrich_fills_every_field_on_a_full_match() {
    let index = LookupIndex::build(
        vec![hotel("H1", "Grand", "4.5", "Paris")],
        vec![room("H1", "src1", "Nice Room", "R1")],
    );
    let out = enrich_record(&input_row(), &index).unwrap();
    assert_eq!(out.room_type_meal, "Double BB");
    assert_eq!(out.room_code, "R1");
    assert_eq!(out.source, "src1");
    assert_eq!(out.hotel_name, "Grand");
    assert_eq!(out.city_name, "Paris");
    assert_eq!(out.city_code, "EC");
    assert_eq!(out.hotel_category, "4.5");
    assert_eq!(out.pax, 3);
    assert_eq!(out.adults, 2);
    assert_eq!(out.children, 1);
    assert_eq!(out.room_name, "Nice Room");
    assert_eq!(out.checkin, "2001-09-14");
    assert_eq!(out.checkout, "2001-09-15");
    assert_eq!(out.price, "50.00");
}

#[test]
fn enrich_emits_row_with_defaults_when_nothing_matches() {
    let index = LookupIndex::build(
        vec![hotel("H2", "Other", "3.0", "Lyon")],
        vec![room("H2", "src1", "Other Room", "R1")],
    );
    let out = enrich_record(&input_row(), &index).unwrap();
    assert_eq!(out.hotel_name, "");
    assert_eq!(out.city_name, "");
    assert_eq!(out.hotel_category, "0.0");
    assert_eq!(out.room_name, "");
    assert_eq!(out.room_type_meal, "Double BB");
}

#[test]
fn room_type_meal_keeps_casing_and_whitespace() {
    let mut rec = input_row();
    rec.room_type = " DoUbLe  rOoM ".to_string();
    rec.meal = " half BOARD ".to_string();
    let index = LookupIndex::build(vec![], vec![]);
    let out = enrich_record(&rec, &index).unwrap();
    assert_eq!(out.room_type_meal, " DoUbLe  rOoM   half BOARD ");
}

#[test]
fn later_reference_record_wins_on_duplicate_keys() {
    let index = LookupIndex::build(
        vec![
            hotel("H1", "Old Name", "2.0", "Nice"),
            hotel("H1", "New Name", "5.0", "Cannes"),
        ],
        vec![
            room("H1", "src1", "Old Room", "R1"),
            room("H1", "src1", "New Room", "R1"),
        ],
    );
    let out = enrich_record(&input_row(), &index).unwrap();
    assert_eq!(out.hotel_name, "New Name");
    assert_eq!(out.city_name, "Cannes");
    assert_eq!(out.hotel_category, "5.0");
    assert_eq!(out.room_name, "New Room");
}

#[test]
fn enrich_fails_on_zero_pax_without_dividing() {
    let mut rec = input_row();
    rec.adults = 0;
    rec.children = 0;
    let index = LookupIndex::build(vec![], vec![]);
    assert_eq!(enrich_record(&rec, &index), Err(EnrichError::DivisionByZero));
}

#[test]
fn enrich_fails_on_bad_checkin_length() {
    let mut rec = input_row();
    rec.checkin = "2001914".to_string();
    let index = LookupIndex::build(vec![], vec![]);
    assert_eq!(enrich_record(&rec, &index), Err(EnrichError::DateParse));
}

#[test]
fn enrich_fails_on_invalid_calendar_date() {
    let mut rec = input_row();
    rec.checkin = "20010230".to_string();
    let index = LookupIndex::build(vec![], vec![]);
    assert_eq!(enrich_record(&rec, &index), Err(EnrichError::DateParse));
}

#[test]
fn enrich_fails_past_the_supported_date_range() {
    let mut rec = input_row();
    rec.checkin = "99991231".to_string();
    let index = LookupIndex::build(vec![], vec![]);
    assert_eq!(enrich_record(&rec, &index), Err(EnrichError::DateOutOfRange));
}

#[test]
fn enrich_fails_on_malformed_price() {
    let mut rec = input_row();
    rec.price = "abc".to_string();
    let index = LookupIndex::build(vec![], vec![]);
    assert_eq!(enrich_record(&rec, &index), Err(EnrichError::PriceMalformed));
}
