//! The pipeline driver: reads the booking rows (pipe-delimited, header row
//! skipped), loads the two reference datasets, builds the indices, enriches
//! every row in order and renders the semicolon-delimited output text with
//! its header. The first error anywhere aborts the whole run.

use crate::enrich::{enrich_record, spec_enrich, EnrichError};
use crate::hotels::{get_hotels, spec_load_hotels};
use crate::index::LookupIndex;
use crate::lines::{lines_of, split_on, split_str, text_lines, views_of};
use crate::num::{all_digits, dec_str, dec_val, format_u64, parse_u32};
use crate::price::spec_parse_decimal;
use crate::records::{
    hotel_views, room_views, HotelView, InputRecords, InputView, OutputRecords, OutputView,
    RoomNameView,
};
use crate::room_names::{get_room_names, spec_load_rooms};
use vstd::prelude::*;

verus! {

/// The first fatal error of a run, each with its 1-based line number in the
/// file it came from.
#[derive(Clone, Copy, Debug, PartialEq, Eq, Structural)]
pub enum PipelineError {
    /// A malformed line in the hotel directory.
    HotelsLoad { line_number: usize },
    /// A malformed line in the room-name directory.
    RoomNamesLoad { line_number: usize },
    /// An input row with the wrong column count or an unreadable count or
    /// amount.
    InputFormat { line_number: usize },
    /// A row that could not be enriched.
    Enrich { line_number: usize, error: EnrichError },
}

/// An input row: exactly ten pipe-separated fields in declared order, the
/// occupant counts readable as 32-bit unsigned integers and the price as a
/// decimal amount.
pub open spec fn spec_parse_input_line(s: Seq<char>) -> Option<InputView> {
    let parts = split_on(s, '|');
    if parts.len() == 10 && parts[6].len() >= 1 && all_digits(parts[6]) && dec_val(parts[6])
        <= u32::MAX && parts[7].len() >= 1 && all_digits(parts[7]) && dec_val(parts[7]) <= u32::MAX
        && spec_parse_decimal(parts[8]) is Some {
        Some(
            InputView {
                city_code: parts[0],
                hotel_code: parts[1],
                room_type: parts[2],
                room_code: parts[3],
                meal: parts[4],
                checkin: parts[5],
                adults: dec_val(parts[6]) as u32,
                children: dec_val(parts[7]) as u32,
                price: parts[8],
                source: parts[9],
            },
        )
    } else {
        None
    }
}

/// Reads one input row.
pub fn parse_input_line(s: &str) -> (r: Option<InputRecords>)
    ensures
        match r {
            Some(rec) => spec_parse_input_line(s@) == Some(rec@),
            None => spec_parse_input_line(s@) is None,
        },
{
    let parts = split_str(s, '|');
    if parts.len() != 10 {
        return None;
    }
    proof {
        assert forall|j: int| 0 <= j < 10 implies views_of(parts@)[j] == parts@[j]@ by {}
    }
    let adults = match parse_u32(parts[6].as_str()) {
        Some(v) => v,
        None => {
            return None;
        },
    };
    let children = match parse_u32(parts[7].as_str()) {
        Some(v) => v,
        None => {
            return None;
        },
    };
    if crate::price::parse_decimal(parts[8].as_str()).is_none() {
        return None;
    }
    let rec = InputRecords {
        city_code: parts[0].clone(),
        hotel_code: parts[1].clone(),
        room_type: parts[2].clone(),
        room_code: parts[3].clone(),
        meal: parts[4].clone(),
        checkin: parts[5].clone(),
        adults,
        children,
        price: parts[8].clone(),
        source: parts[9].clone(),
    };
    Some(rec)
}

/// The output header: the column labels joined by semicolons, the merged
/// column labeled `room_type meal`.
pub open spec fn spec_output_header() -> Seq<char> {
    "room_type meal;room_code;source;hotel_name;city_name;city_code;hotel_category;pax;adults;children;room_name;checkin;checkout;price"@
}

/// Emits the output header row.
pub fn output_header() -> (r: String)
    ensures
        r@ == spec_output_header(),
{
    let r =
        "room_type meal;room_code;source;hotel_name;city_name;city_code;hotel_category;pax;adults;children;room_name;checkin;checkout;price".to_owned();
    r
}

/// One output row as text: the fourteen fields joined by semicolons, the
/// counts in decimal.
pub open spec fn spec_render_output(o: OutputView) -> Seq<char> {
    o.room_type_meal + seq![';'] + o.room_code + seq![';'] + o.source + seq![';'] + o.hotel_name
        + seq![';'] + o.city_name + seq![';'] + o.city_code + seq![';'] + o.hotel_category
        + seq![';'] + dec_str(o.pax as nat) + seq![';'] + dec_str(o.adults as nat) + seq![';']
        + dec_str(o.children as nat) + seq![';'] + o.room_name + seq![';'] + o.checkin + seq![';']
        + o.checkout + seq![';'] + o.price
}

/// Renders one output row.
pub fn render_output_line(o: &OutputRecords) -> (r: String)
    ensures
        r@ == spec_render_output(o@),
{
    let mut r = o.room_type_meal.clone();
    r.append(";");
    r.append(o.room_code.as_str());
    r.append(";");
    r.append(o.source.as_str());
    r.append(";");
    r.append(o.hotel_name.as_str());
    r.append(";");
    r.append(o.city_name.as_str());
    r.append(";");
    r.append(o.city_code.as_str());
    r.append(";");
    r.append(o.hotel_category.as_str());
    r.append(";");
    let pax = format_u64(o.pax);
    r.append(pax.as_str());
    r.append(";");
    let adults = format_u64(o.adults as u64);
    r.append(adults.as_str());
    r.append(";");
    let children = format_u64(o.children as u64);
    r.append(children.as_str());
    r.append(";");
    r.append(o.room_name.as_str());
    r.append(";");
    r.append(o.checkin.as_str());
    r.append(";");
    r.append(o.checkout.as_str());
    r.append(";");
    r.append(o.price.as_str());
    proof {
        reveal_strlit(";");
        assert(r@ =~= spec_render_output(o@));
    }
    r
}

/// The rendered rows of the input lines starting at 1-based line `base`:
/// blank lines are skipped, and the first malformed or unenrichable row
/// aborts the run with its line number.
pub open spec fn spec_process_rows(
    rows: Seq<Seq<char>>,
    base: nat,
    hotels: Seq<HotelView>,
    rooms: Seq<RoomNameView>,
) -> Result<Seq<Seq<char>>, PipelineError>
    decreases rows.len(),
{
    if rows.len() == 0 {
        Ok(Seq::empty())
    } else if rows[0].len() == 0 {
        spec_process_rows(rows.drop_first(), base + 1, hotels, rooms)
    } else {
        match spec_parse_input_line(rows[0]) {
            None => Err(PipelineError::InputFormat { line_number: base as usize }),
            Some(v) => match spec_enrich(v, hotels, rooms) {
                Err(e) => Err(PipelineError::Enrich { line_number: base as usize, error: e }),
                Ok(out) => match spec_process_rows(rows.drop_first(), base + 1, hotels, rooms) {
                    Err(e) => Err(e),
                    Ok(rest) => Ok(seq![spec_render_output(out)] + rest),
                },
            },
        }
    }
}

/// Lines joined back into a text, each line closed by a newline.
pub open spec fn cat_lines(ls: Seq<Seq<char>>) -> Seq<char>
    decreases ls.len(),
{
    if ls.len() == 0 {
        Seq::empty()
    } else {
        cat_lines(ls.drop_last()) + ls.last() + seq!['\n']
    }
}

/// What a whole run yields from the three file texts: the output text
/// (header plus one line per input row, in input order), or the first fatal
/// error — a malformed reference line, a malformed input row, or a row that
/// would not enrich. Nothing is produced on error.
pub open spec fn spec_run_pipeline(
    input: Seq<char>,
    hotels_text: Seq<char>,
    rooms_text: Seq<char>,
) -> Result<Seq<char>, PipelineError> {
    match spec_load_hotels(lines_of(hotels_text), 1) {
        Err(n) => Err(PipelineError::HotelsLoad { line_number: n as usize }),
        Ok(hs) => match spec_load_rooms(lines_of(rooms_text), 1) {
            Err(n) => Err(PipelineError::RoomNamesLoad { line_number: n as usize }),
            Ok(rs) => {
                let ls = lines_of(input);
                let rows = if ls.len() == 0 {
                    ls
                } else {
                    ls.drop_first()
                };
                match spec_process_rows(rows, 2, hs, rs) {
                    Err(e) => Err(e),
                    Ok(rendered) => Ok(cat_lines(seq![spec_output_header()] + rendered)),
                }
            },
        },
    }
}

/// Runs the whole pipeline on the three file texts: loads both reference
/// datasets (a malformed line aborts with its line number before any row is
/// processed), then enriches the input rows in order — header line skipped,
/// blank lines ignored — and returns the full output text. The first failing
/// row aborts the run.
#[verifier::rlimit(60)]
pub fn run_pipeline(input_text: &str, hotels_text: &str, room_names_text: &str) -> (r: Result<
    String,
    PipelineError,
>)
    ensures
        ({
            let sp = spec_run_pipeline(input_text@, hotels_text@, room_names_text@);
            match r {
                Ok(out) => sp == Ok::<Seq<char>, PipelineError>(out@),
                Err(e) => sp == Err::<Seq<char>, PipelineError>(e),
            }
        }),
{
    let hotels = match get_hotels(hotels_text) {
        Ok(h) => h,
        Err(e) => {
            return Err(PipelineError::HotelsLoad { line_number: e.line_number });
        },
    };
    let room_names = match get_room_names(room_names_text) {
        Ok(v) => v,
        Err(e) => {
            return Err(PipelineError::RoomNamesLoad { line_number: e.line_number });
        },
    };
    let index = LookupIndex::build(hotels, room_names);
    let ghost hs = hotel_views(index.hotels@);
    let ghost rs = room_views(index.room_names@);
    let lines = text_lines(input_text);
    let ghost ls = lines_of(input_text@);
    let ghost rows = if ls.len() == 0 {
        ls
    } else {
        ls.drop_first()
    };
    let mut out_text = output_header();
    out_text.push('\n');
    let ghost mut done: Seq<Seq<char>> = Seq::empty();
    proof {
        assert(rows.skip(0) =~~= rows);
        assert(seq![spec_output_header()].drop_last() =~~= Seq::<Seq<char>>::empty());
        assert((seq![spec_output_header()] + done) =~~= seq![spec_output_header()]);
        assert(cat_lines(Seq::<Seq<char>>::empty()) =~= Seq::<char>::empty());
        assert(cat_lines(seq![spec_output_header()]) =~= spec_output_header() + seq!['\n']);
        assert(out_text@ =~= cat_lines(seq![spec_output_header()] + done));
    }
    let mut i: usize = 1;
    while i < lines.len()
        invariant
            1 <= i,
            lines.len() == 0 ==> i == 1,
            lines.len() > 0 ==> i <= lines.len(),
            hs == hotel_views(index.hotels@),
            rs == room_views(index.room_names@),
            ls == lines_of(input_text@),
            views_of(lines@) == ls,
            spec_load_hotels(lines_of(hotels_text@), 1) == Ok::<Seq<HotelView>, nat>(hs),
            spec_load_rooms(lines_of(room_names_text@), 1) == Ok::<Seq<RoomNameView>, nat>(rs),
            rows == (if ls.len() == 0 {
                ls
            } else {
                ls.drop_first()
            }),
            spec_process_rows(rows, 2, hs, rs) == (match spec_process_rows(
                rows.skip(i - 1),
                (i + 1) as nat,
                hs,
                rs,
            ) {
                Ok(rest) => Ok::<Seq<Seq<char>>, PipelineError>(done + rest),
                Err(e) => Err::<Seq<Seq<char>>, PipelineError>(e),
            }),
            out_text@ == cat_lines(seq![spec_output_header()] + done),
        decreases lines.len() - i,
    {
        proof {
            assert(rows.len() == ls.len() - 1);
            assert(rows.skip(i - 1)[0] == rows[i - 1]);
            assert(rows[i - 1] == ls[i as int]);
            assert(ls[i as int] == lines@[i as int]@);
            assert(rows.skip(i - 1).drop_first() =~~= rows.skip(i as int));
        }
        let line = &lines[i];
        if line.as_str().unicode_len() == 0 {
            i = i + 1;
            continue;
        }
        let rec = match parse_input_line(line.as_str()) {
            Some(rec) => rec,
            None => {
                proof {
                    assert(rows.skip(i - 1).len() != 0);
                    assert(spec_process_rows(rows.skip(i - 1), (i + 1) as nat, hs, rs) == Err::<
                        Seq<Seq<char>>,
                        PipelineError,
                    >(PipelineError::InputFormat { line_number: (i + 1) as usize }));
                }
                return Err(PipelineError::InputFormat { line_number: i + 1 });
            },
        };
        let out = match enrich_record(&rec, &index) {
            Ok(out) => out,
            Err(e) => {
                proof {
                    assert(rows.skip(i - 1).len() != 0);
                    assert(spec_process_rows(rows.skip(i - 1), (i + 1) as nat, hs, rs) == Err::<
                        Seq<Seq<char>>,
                        PipelineError,
                    >(PipelineError::Enrich { line_number: (i + 1) as usize, error: e }));
                }
                return Err(PipelineError::Enrich { line_number: i + 1, error: e });
            },
        };
        let rendered = render_output_line(&out);
        proof {
            let rest_sp = spec_process_rows(rows.skip(i as int), (i + 2) as nat, hs, rs);
            if rest_sp is Ok {
                assert(done + (seq![rendered@] + rest_sp->Ok_0) =~~= (done.push(rendered@))
                    + rest_sp->Ok_0);
            }
            assert((seq![spec_output_header()] + done.push(rendered@)).drop_last() =~~= seq![
                spec_output_header(),
            ] + done);
        }
        out_text.append(rendered.as_str());
        out_text.push('\n');
        proof {
            done = done.push(rendered@);
            assert(out_text@ =~= cat_lines(seq![spec_output_header()] + done));
        }
        i = i + 1;
    }
    proof {
        if lines@.len() > 0 {
            assert(rows.skip(lines@.len() - 1) =~~= Seq::<Seq<char>>::empty());
        } else {
            assert(rows.skip(0) =~~= rows);
            assert(rows =~~= Seq::<Seq<char>>::empty());
        }
        assert(spec_process_rows(rows, 2, hs, rs) == Ok::<Seq<Seq<char>>, PipelineError>(done));
    }
    Ok(out_text)
}

/// A malformed reference line aborts the run before any row is processed:
/// whatever the input text holds, the result is the loader's error.
pub proof fn law_load_failure_aborts(
    input: Seq<char>,
    hotels_text: Seq<char>,
    rooms_text: Seq<char>,
)
    ensures
        spec_load_hotels(lines_of(hotels_text), 1) matches Err(n) ==> spec_run_pipeline(
            input,
            hotels_text,
            rooms_text,
        ) == Err::<Seq<char>, PipelineError>(
            PipelineError::HotelsLoad { line_number: n as usize },
        ),
        ({
            let rooms = spec_load_rooms(lines_of(rooms_text), 1);
            spec_load_hotels(lines_of(hotels_text), 1) is Ok && rooms is Err ==> spec_run_pipeline(
                input,
                hotels_text,
                rooms_text,
            ) == Err::<Seq<char>, PipelineError>(
                PipelineError::RoomNamesLoad { line_number: rooms->Err_0 as usize },
            )
        }),
{
}

} // verus!
