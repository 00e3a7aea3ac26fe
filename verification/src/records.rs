//! The record types moving through the pipeline: the two reference datasets,
//! the input rows, and the enriched output rows, together with their
//! mathematical views.
//!
//! Decimal quantities (the hotel category and the price) are carried as their
//! verbatim decimal text: the pipeline never needs them as machine reals, and
//! the text form keeps every contract exact.

use vstd::prelude::*;

verus! {

/// A reference dataset failed to load: the first malformed line, 1-based.
#[derive(Clone, Copy, Debug, PartialEq, Eq, Structural)]
pub struct LoadError {
    pub line_number: usize,
}

/// One hotel of the hotel directory, keyed by `id`.
#[derive(Debug, Clone, PartialEq)]
pub struct HotelsRecords {
    pub id: String,
    pub city_code: String,
    pub name: String,
    pub category: String,
    pub country_code: String,
    pub city: String,
}

/// Mathematical view of a hotel record.
#[verifier::ext_equal]
pub struct HotelView {
    pub id: Seq<char>,
    pub city_code: Seq<char>,
    pub name: Seq<char>,
    pub category: Seq<char>,
    pub country_code: Seq<char>,
    pub city: Seq<char>,
}

impl View for HotelsRecords {
    type V = HotelView;

    open spec fn view(&self) -> HotelView {
        HotelView {
            id: self.id@,
            city_code: self.city_code@,
            name: self.name@,
            category: self.category@,
            country_code: self.country_code@,
            city: self.city@,
        }
    }
}

/// One row of the room-name directory, keyed by `(id, source, room_code)`.
#[derive(Debug, Clone, PartialEq)]
pub struct RoomNamesRecords {
    pub id: String,
    pub source: String,
    pub room_name: String,
    pub room_code: String,
}

/// Mathematical view of a room-name record.
#[verifier::ext_equal]
pub struct RoomNameView {
    pub id: Seq<char>,
    pub source: Seq<char>,
    pub room_name: Seq<char>,
    pub room_code: Seq<char>,
}

impl View for RoomNamesRecords {
    type V = RoomNameView;

    open spec fn view(&self) -> RoomNameView {
        RoomNameView {
            id: self.id@,
            source: self.source@,
            room_name: self.room_name@,
            room_code: self.room_code@,
        }
    }
}

/// One booking row of the input file. `checkin` is the raw 8-digit date
/// field; `price` is the verbatim decimal text of the total price.
#[derive(Debug, Clone, PartialEq)]
pub struct InputRecords {
    pub city_code: String,
    pub hotel_code: String,
    pub room_type: String,
    pub room_code: String,
    pub meal: String,
    pub checkin: String,
    pub adults: u32,
    pub children: u32,
    pub price: String,
    pub source: String,
}

/// Mathematical view of an input row.
#[verifier::ext_equal]
pub struct InputView {
    pub city_code: Seq<char>,
    pub hotel_code: Seq<char>,
    pub room_type: Seq<char>,
    pub room_code: Seq<char>,
    pub meal: Seq<char>,
    pub checkin: Seq<char>,
    pub adults: u32,
    pub children: u32,
    pub price: Seq<char>,
    pub source: Seq<char>,
}

impl View for InputRecords {
    type V = InputView;

    open spec fn view(&self) -> InputView {
        InputView {
            city_code: self.city_code@,
            hotel_code: self.hotel_code@,
            room_type: self.room_type@,
            room_code: self.room_code@,
            meal: self.meal@,
            checkin: self.checkin@,
            adults: self.adults,
            children: self.children,
            price: self.price@,
            source: self.source@,
        }
    }
}

/// One enriched output row. `checkin` and `checkout` are `YYYY-MM-DD`,
/// `price` is the per-person price with exactly two decimal digits, and
/// `room_type_meal` is the room type and meal joined by a single space.
#[derive(Debug, Clone, PartialEq)]
pub struct OutputRecords {
    pub room_type_meal: String,
    pub room_code: String,
    pub source: String,
    pub hotel_name: String,
    pub city_name: String,
    pub city_code: String,
    pub hotel_category: String,
    pub pax: u64,
    pub adults: u32,
    pub children: u32,
    pub room_name: String,
    pub checkin: String,
    pub checkout: String,
    pub price: String,
}

/// Mathematical view of an output row.
#[verifier::ext_equal]
pub struct OutputView {
    pub room_type_meal: Seq<char>,
    pub room_code: Seq<char>,
    pub source: Seq<char>,
    pub hotel_name: Seq<char>,
    pub city_name: Seq<char>,
    pub city_code: Seq<char>,
    pub hotel_category: Seq<char>,
    pub pax: u64,
    pub adults: u32,
    pub children: u32,
    pub room_name: Seq<char>,
    pub checkin: Seq<char>,
    pub checkout: Seq<char>,
    pub price: Seq<char>,
}

impl View for OutputRecords {
    type V = OutputView;

    open spec fn view(&self) -> OutputView {
        OutputView {
            room_type_meal: self.room_type_meal@,
            room_code: self.room_code@,
            source: self.source@,
            hotel_name: self.hotel_name@,
            city_name: self.city_name@,
            city_code: self.city_code@,
            hotel_category: self.hotel_category@,
            pax: self.pax,
            adults: self.adults,
            children: self.children,
            room_name: self.room_name@,
            checkin: self.checkin@,
            checkout: self.checkout@,
            price: self.price@,
        }
    }
}

/// The views of a sequence of hotel records.
pub open spec fn hotel_views(v: Seq<HotelsRecords>) -> Seq<HotelView> {
    Seq::new(v.len(), |i: int| v[i]@)
}

/// The views of a sequence of room-name records.
pub open spec fn room_views(v: Seq<RoomNamesRecords>) -> Seq<RoomNameView> {
    Seq::new(v.len(), |i: int| v[i]@)
}

} // verus!
