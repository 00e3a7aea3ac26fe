//! Keyed lookups over the two reference datasets. Hotels are keyed by `id`,
//! room names by the composite `(id, source, room_code)`. On duplicate keys
//! the record loaded later wins, the documented overwrite policy of the
//! directory indices.

use crate::records::{
    hotel_views, room_views, HotelView, HotelsRecords, RoomNameView, RoomNamesRecords,
};
use vstd::prelude::*;

verus! {

/// The read-only join indices over the loaded reference datasets.
pub struct LookupIndex {
    pub hotels: Vec<HotelsRecords>,
    pub room_names: Vec<RoomNamesRecords>,
}

/// The hotel that a lookup of `code` finds: the latest-loaded record whose
/// `id` equals `code`.
pub open spec fn spec_find_hotel(hs: Seq<HotelView>, code: Seq<char>) -> Option<HotelView>
    decreases hs.len(),
{
    if hs.len() == 0 {
        None
    } else if hs.last().id == code {
        Some(hs.last())
    } else {
        spec_find_hotel(hs.drop_last(), code)
    }
}

/// The room-name record that a lookup of `(id, source, room_code)` finds:
/// the latest-loaded record with all three key fields equal.
pub open spec fn spec_find_room(
    rs: Seq<RoomNameView>,
    id: Seq<char>,
    source: Seq<char>,
    room_code: Seq<char>,
) -> Option<RoomNameView>
    decreases rs.len(),
{
    if rs.len() == 0 {
        None
    } else if rs.last().id == id && rs.last().source == source && rs.last().room_code
        == room_code {
        Some(rs.last())
    } else {
        spec_find_room(rs.drop_last(), id, source, room_code)
    }
}

impl LookupIndex {
    /// Wraps the two loaded datasets as the pipeline's join indices.
    pub fn build(hotels: Vec<HotelsRecords>, room_names: Vec<RoomNamesRecords>) -> (r:
        LookupIndex)
        ensures
            r.hotels@ == hotels@,
            r.room_names@ == room_names@,
    {
        LookupIndex { hotels, room_names }
    }

    /// Finds the hotel with the given id; on duplicate ids the record loaded
    /// later wins.
    pub fn find_hotel(&self, code: &String) -> (r: Option<&HotelsRecords>)
        ensures
            match r {
                Some(h) => spec_find_hotel(hotel_views(self.hotels@), code@) == Some(h@),
                None => spec_find_hotel(hotel_views(self.hotels@), code@) is None,
            },
    {
        let ghost hv = hotel_views(self.hotels@);
        let mut i = self.hotels.len();
        proof {
            assert(hv.take(hv.len() as int) =~~= hv);
        }
        while i > 0
            invariant
                i <= self.hotels.len(),
                hv == hotel_views(self.hotels@),
                spec_find_hotel(hv, code@) == spec_find_hotel(hv.take(i as int), code@),
            decreases i,
        {
            let h = &self.hotels[i - 1];
            proof {
                assert(hv.take(i as int).last() == hv[i as int - 1]);
                assert(hv[i as int - 1] == self.hotels@[i as int - 1]@);
                assert(hv.take(i as int).drop_last() =~~= hv.take(i as int - 1));
            }
            if h.id == *code {
                return Some(h);
            }
            i = i - 1;
        }
        proof {
            assert(hv.take(0) =~~= Seq::<HotelView>::empty());
        }
        None
    }

    /// Finds the room name with the given composite key; on duplicate keys
    /// the record loaded later wins.
    pub fn find_room_name(&self, id: &String, source: &String, room_code: &String) -> (r: Option<
        &RoomNamesRecords,
    >)
        ensures
            match r {
                Some(n) => spec_find_room(room_views(self.room_names@), id@, source@, room_code@)
                    == Some(n@),
                None => spec_find_room(
                    room_views(self.room_names@),
                    id@,
                    source@,
                    room_code@,
                ) is None,
            },
    {
        let ghost rv = room_views(self.room_names@);
        let mut i = self.room_names.len();
        proof {
            assert(rv.take(rv.len() as int) =~~= rv);
        }
        while i > 0
            invariant
                i <= self.room_names.len(),
                rv == room_views(self.room_names@),
                spec_find_room(rv, id@, source@, room_code@) == spec_find_room(
                    rv.take(i as int),
                    id@,
                    source@,
                    room_code@,
                ),
            decreases i,
        {
            let n = &self.room_names[i - 1];
            proof {
                assert(rv.take(i as int).last() == rv[i as int - 1]);
                assert(rv[i as int - 1] == self.room_names@[i as int - 1]@);
                assert(rv.take(i as int).drop_last() =~~= rv.take(i as int - 1));
            }
            if n.id == *id && n.source == *source && n.room_code == *room_code {
                return Some(n);
            }
            i = i - 1;
        }
        proof {
            assert(rv.take(0) =~~= Seq::<RoomNameView>::empty());
        }
        None
    }
}

} // verus!
