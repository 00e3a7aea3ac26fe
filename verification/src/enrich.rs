//! The enricher: turns one input row and the lookup indices into one output
//! row, computing every derived field — normalized check-in, check-out one
//! calendar day later, occupant count, per-person price, merged
//! room-type/meal label, and the joined hotel and room-name fields.

use crate::dates::{
    add_days, correct_date, date_plus, parse_date_seq, spec_add_days, spec_format_date,
    spec_next_date, spec_normalize_checkin, spec_valid_date, Date, DateError,
};
use crate::index::{spec_find_hotel, spec_find_room, LookupIndex};
use crate::price::{price_per_pax, spec_price_per_pax, PriceError};
use crate::records::{
    hotel_views, room_views, HotelView, InputRecords, InputView, OutputRecords, OutputView,
    RoomNameView,
};
use vstd::prelude::*;

verus! {

/// Why a row could not be enriched.
#[derive(Clone, Copy, Debug, PartialEq, Eq, Structural)]
pub enum EnrichError {
    /// The check-in field is not 8 characters naming a valid calendar date.
    DateParse,
    /// The check-out would pass the last supported date, 9999-12-31.
    DateOutOfRange,
    /// The price field is not a decimal amount the pipeline can scale.
    PriceMalformed,
    /// The occupant count is zero; the price division is refused.
    DivisionByZero,
}

/// The occupant count: adults plus children, widened so the sum can never
/// wrap. The contract makes the sum exact, so overflow is ruled out rather
/// than handled.
pub fn calculate_pax(adults: u32, children: u32) -> (r: u64)
    ensures
        r == adults as u64 + children as u64,
{
    let adults = adults as u64;
    let children = children as u64;
    adults + children
}

/// The merged room-type/meal label of a row: the two fields joined by one
/// space, both verbatim.
pub open spec fn spec_room_type_meal(room_type: Seq<char>, meal: Seq<char>) -> Seq<char> {
    room_type + seq![' '] + meal
}

/// The default category text emitted when no hotel matches.
pub open spec fn spec_default_category() -> Seq<char> {
    seq!['0', '.', '0']
}

/// What enriching one input row against the reference datasets yields:
/// either every output field, or the first error in evaluation order
/// (check-in date, then price). A missing hotel or room-name match is not an
/// error: those fields default and the row is still produced.
pub open spec fn spec_enrich(
    v: InputView,
    hotels: Seq<HotelView>,
    rooms: Seq<RoomNameView>,
) -> Result<OutputView, EnrichError> {
    if v.checkin.len() != 8 {
        Err(EnrichError::DateParse)
    } else {
        let checkin = spec_normalize_checkin(v.checkin);
        match spec_add_days(checkin, 1) {
            Err(DateError::Parse) => Err(EnrichError::DateParse),
            Err(DateError::OutOfRange) => Err(EnrichError::DateOutOfRange),
            Ok(checkout) => {
                let pax = v.adults as nat + v.children as nat;
                match spec_price_per_pax(v.price, pax) {
                    Err(PriceError::Malformed) => Err(EnrichError::PriceMalformed),
                    Err(PriceError::DivisionByZero) => Err(EnrichError::DivisionByZero),
                    Ok(price) => Ok(
                        OutputView {
                            room_type_meal: spec_room_type_meal(v.room_type, v.meal),
                            room_code: v.room_code,
                            source: v.source,
                            hotel_name: match spec_find_hotel(hotels, v.hotel_code) {
                                Some(h) => h.name,
                                None => Seq::empty(),
                            },
                            city_name: match spec_find_hotel(hotels, v.hotel_code) {
                                Some(h) => h.city,
                                None => Seq::empty(),
                            },
                            city_code: v.city_code,
                            hotel_category: match spec_find_hotel(hotels, v.hotel_code) {
                                Some(h) => h.category,
                                None => spec_default_category(),
                            },
                            pax: (v.adults + v.children) as u64,
                            adults: v.adults,
                            children: v.children,
                            room_name: match spec_find_room(
                                rooms,
                                v.hotel_code,
                                v.source,
                                v.room_code,
                            ) {
                                Some(n) => n.room_name,
                                None => Seq::empty(),
                            },
                            checkin: checkin,
                            checkout: checkout,
                            price: price,
                        },
                    ),
                }
            },
        }
    }
}

/// Enriches one input row against the indices into one output row, or fails
/// with the first error the derived fields hit. The join never fails: a row
/// without a hotel or room-name match is emitted with those fields empty
/// (category `0.0`).
pub fn enrich_record(rec: &InputRecords, index: &LookupIndex) -> (r: Result<
    OutputRecords,
    EnrichError,
>)
    ensures
        ({
            let sp = spec_enrich(rec@, hotel_views(index.hotels@), room_views(index.room_names@));
            match r {
                Ok(out) => sp == Ok::<OutputView, EnrichError>(out@),
                Err(e) => sp == Err::<OutputView, EnrichError>(e),
            }
        }),
{
    if rec.checkin.as_str().unicode_len() != 8 {
        return Err(EnrichError::DateParse);
    }
    let mut checkin = rec.checkin.clone();
    correct_date(&mut checkin);
    let checkout = match add_days(&checkin, 1) {
        Ok(c) => c,
        Err(DateError::Parse) => {
            return Err(EnrichError::DateParse);
        },
        Err(DateError::OutOfRange) => {
            return Err(EnrichError::DateOutOfRange);
        },
    };
    let mut room_type_meal = rec.room_type.clone();
    room_type_meal.append(" ");
    room_type_meal.append(rec.meal.as_str());
    proof {
        reveal_strlit(" ");
        assert(room_type_meal@ =~= spec_room_type_meal(rec.room_type@, rec.meal@));
    }
    let pax = calculate_pax(rec.adults, rec.children);
    let price = match price_per_pax(rec.price.as_str(), pax) {
        Ok(p) => p,
        Err(PriceError::Malformed) => {
            return Err(EnrichError::PriceMalformed);
        },
        Err(PriceError::DivisionByZero) => {
            return Err(EnrichError::DivisionByZero);
        },
    };
    let (hotel_name, city_name, hotel_category) = match index.find_hotel(&rec.hotel_code) {
        Some(h) => (h.name.clone(), h.city.clone(), h.category.clone()),
        None => {
            let cat = "0.0".to_owned();
            proof {
                reveal_strlit("0.0");
                assert(cat@ =~= spec_default_category());
            }
            (String::new(), String::new(), cat)
        },
    };
    let room_name = match index.find_room_name(&rec.hotel_code, &rec.source, &rec.room_code) {
        Some(n) => n.room_name.clone(),
        None => String::new(),
    };
    let out = OutputRecords {
        room_type_meal,
        room_code: rec.room_code.clone(),
        source: rec.source.clone(),
        hotel_name,
        city_name,
        city_code: rec.city_code.clone(),
        hotel_category,
        pax,
        adults: rec.adults,
        children: rec.children,
        room_name,
        checkin,
        checkout,
        price,
    };
    proof {
        let sp = spec_enrich(rec@, hotel_views(index.hotels@), room_views(index.room_names@));
        assert(sp == Ok::<OutputView, EnrichError>(out@)) by {
            assert(sp matches Ok(v) && v =~= out@);
        }
    }
    Ok(out)
}

/// The merged label of every produced row is the room type, one space, and
/// the meal, all three verbatim.
pub proof fn law_room_type_meal_verbatim(
    v: InputView,
    hotels: Seq<HotelView>,
    rooms: Seq<RoomNameView>,
)
    ensures
        spec_enrich(v, hotels, rooms) matches Ok(out) ==> out.room_type_meal == v.room_type
            + seq![' '] + v.meal,
{
}

/// The check-out of every produced row is exactly one calendar day after the
/// check-in the row carries, and both are valid dates.
pub proof fn law_checkout_one_day_after(
    v: InputView,
    hotels: Seq<HotelView>,
    rooms: Seq<RoomNameView>,
)
    ensures
        spec_enrich(v, hotels, rooms) matches Ok(out) ==> {
            &&& parse_date_seq(out.checkin) is Some
            &&& spec_valid_date(spec_next_date(parse_date_seq(out.checkin)->Some_0))
            &&& out.checkout == spec_format_date(spec_next_date(parse_date_seq(out.checkin)->Some_0))
        },
{
    if spec_enrich(v, hotels, rooms) is Ok {
        let checkin = spec_normalize_checkin(v.checkin);
        let d = parse_date_seq(checkin)->Some_0;
        assert(date_plus(spec_next_date(d), 0nat) == Some(spec_next_date(d)));
        assert(date_plus(d, 1nat) == (if spec_valid_date(spec_next_date(d)) {
            Some(spec_next_date(d))
        } else {
            None::<Date>
        }));
    }
}

/// Join correctness: a produced row carries the name, city and category of
/// the hotel its `hotel_code` finds in the index, or empty name and city and
/// category `0.0` when no hotel matches — the row is produced either way:
/// whether enrichment succeeds does not depend on the reference data at all.
pub proof fn law_join_fields(v: InputView, hotels: Seq<HotelView>, rooms: Seq<RoomNameView>)
    ensures
        spec_enrich(v, hotels, rooms) matches Ok(out) ==> match spec_find_hotel(
            hotels,
            v.hotel_code,
        ) {
            Some(h) => out.hotel_name == h.name && out.city_name == h.city && out.hotel_category
                == h.category,
            None => out.hotel_name == Seq::<char>::empty() && out.city_name == Seq::<
                char,
            >::empty() && out.hotel_category == spec_default_category(),
        },
        spec_enrich(v, hotels, rooms) matches Ok(out) ==> match spec_find_room(
            rooms,
            v.hotel_code,
            v.source,
            v.room_code,
        ) {
            Some(n) => out.room_name == n.room_name,
            None => out.room_name == Seq::<char>::empty(),
        },
        spec_enrich(v, hotels, rooms) is Ok <==> spec_enrich(v, Seq::empty(), Seq::empty()) is Ok,
{
}

} // verus!
