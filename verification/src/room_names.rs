//! The room-name directory loader: headerless pipe-delimited rows with four
//! positional columns `id|source|room_name|room_code`. A malformed line
//! aborts the whole load with its 1-based line number; blank lines are
//! skipped.

use crate::lines::{lines_of, split_on, split_str, text_lines, views_of};
use crate::records::{room_views, LoadError, RoomNamesRecords, RoomNameView};
use vstd::prelude::*;

verus! {

/// A room-name row: exactly four pipe-separated fields, taken verbatim.
pub open spec fn spec_parse_room_line(s: Seq<char>) -> Option<RoomNameView> {
    let parts = split_on(s, '|');
    if parts.len() == 4 {
        Some(
            RoomNameView {
                id: parts[0],
                source: parts[1],
                room_name: parts[2],
                room_code: parts[3],
            },
        )
    } else {
        None
    }
}

/// The records of the room-name lines starting at 1-based line `base`:
/// blank lines are skipped, the first malformed line aborts with its number.
pub open spec fn spec_load_rooms(ls: Seq<Seq<char>>, base: nat) -> Result<Seq<RoomNameView>, nat>
    decreases ls.len(),
{
    if ls.len() == 0 {
        Ok(Seq::empty())
    } else if ls[0].len() == 0 {
        spec_load_rooms(ls.drop_first(), base + 1)
    } else {
        match spec_parse_room_line(ls[0]) {
            None => Err(base),
            Some(v) => match spec_load_rooms(ls.drop_first(), base + 1) {
                Err(e) => Err(e),
                Ok(rest) => Ok(seq![v] + rest),
            },
        }
    }
}

/// Reads one room-name row.
pub fn parse_room_name_line(s: &str) -> (r: Option<RoomNamesRecords>)
    ensures
        match r {
            Some(rec) => spec_parse_room_line(s@) == Some(rec@),
            None => spec_parse_room_line(s@) is None,
        },
{
    let parts = split_str(s, '|');
    if parts.len() != 4 {
        return None;
    }
    let rec = RoomNamesRecords {
        id: parts[0].clone(),
        source: parts[1].clone(),
        room_name: parts[2].clone(),
        room_code: parts[3].clone(),
    };
    proof {
        assert(views_of(parts@)[0] == parts@[0]@);
        assert(views_of(parts@)[1] == parts@[1]@);
        assert(views_of(parts@)[2] == parts@[2]@);
        assert(views_of(parts@)[3] == parts@[3]@);
    }
    Some(rec)
}

/// Loads the room-name directory from the file's text. Fails with the
/// 1-based number of the first malformed line; blank lines are skipped.
pub fn get_room_names(text: &str) -> (r: Result<Vec<RoomNamesRecords>, LoadError>)
    ensures
        match r {
            Ok(v) => spec_load_rooms(lines_of(text@), 1nat) == Ok::<Seq<RoomNameView>, nat>(
                room_views(v@),
            ),
            Err(e) => spec_load_rooms(lines_of(text@), 1nat) == Err::<Seq<RoomNameView>, nat>(
                e.line_number as nat,
            ),
        },
{
    let lines = text_lines(text);
    let ghost all = lines_of(text@);
    let mut out: Vec<RoomNamesRecords> = Vec::new();
    let ghost mut done: Seq<RoomNameView> = Seq::empty();
    let mut i: usize = 0;
    proof {
        assert(all.skip(0) =~~= all);
    }
    while i < lines.len()
        invariant
            0 <= i <= lines.len(),
            all == lines_of(text@),
            views_of(lines@) == all,
            done.len() == out@.len(),
            forall|j: int| 0 <= j < out@.len() ==> #[trigger] out@[j]@ == done[j],
            spec_load_rooms(all, 1nat) == (match spec_load_rooms(
                all.skip(i as int),
                (i + 1) as nat,
            ) {
                Ok(rest) => Ok::<Seq<RoomNameView>, nat>(done + rest),
                Err(e) => Err::<Seq<RoomNameView>, nat>(e),
            }),
        decreases lines.len() - i,
    {
        proof {
            assert(all.skip(i as int)[0] == all[i as int]);
            assert(all.skip(i as int).drop_first() =~~= all.skip(i as int + 1));
            assert(all[i as int] == lines@[i as int]@);
        }
        let line = &lines[i];
        if line.as_str().unicode_len() == 0 {
            i = i + 1;
            continue;
        }
        match parse_room_name_line(line.as_str()) {
            None => {
                proof {
                    assert(all.skip(i as int).len() != 0);
                    assert(spec_load_rooms(all.skip(i as int), (i + 1) as nat) == Err::<
                        Seq<RoomNameView>,
                        nat,
                    >((i + 1) as nat));
                }
                return Err(LoadError { line_number: i + 1 });
            },
            Some(rec) => {
                proof {
                    let rest_sp = spec_load_rooms(all.skip(i as int + 1), (i + 2) as nat);
                    if rest_sp is Ok {
                        assert(done + (seq![rec@] + rest_sp->Ok_0) =~~= (done.push(rec@))
                            + rest_sp->Ok_0);
                    }
                }
                out.push(rec);
                proof {
                    done = done.push(rec@);
                }
            },
        }
        i = i + 1;
    }
    proof {
        assert(all.skip(lines@.len() as int) =~~= Seq::<Seq<char>>::empty());
        assert(spec_load_rooms(all, 1nat) == Ok::<Seq<RoomNameView>, nat>(done));
        assert(room_views(out@) =~~= done);
    }
    Ok(out)
}

} // verus!
