//! The hotel directory loader: one JSON object per line, with the six fields
//! `id`, `city_code`, `name`, `category`, `country_code` and `city`.
//!
//! The accepted JSON subset: an object whose values are strings without
//! escape sequences or numbers (optional minus, digits, optional fraction),
//! with spaces and tabs between tokens. Each required key must appear exactly
//! once and with the right kind of value; unknown members are ignored. The
//! category is kept as its verbatim numeral text. Any line outside this
//! subset is malformed and aborts the load with its 1-based line number.

use crate::lines::{lines_of, str_equals, text_lines, views_of};
use crate::num::is_digit_char;
use crate::records::{hotel_views, HotelsRecords, HotelView, LoadError};
use vstd::prelude::*;

verus! {

/// A JSON scalar of the accepted subset: the text of a string, or the
/// verbatim text of a number.
#[derive(Debug)]
pub enum JsonValue {
    Str(String),
    Num(String),
}

/// Ghost counterpart of `JsonValue`.
pub enum JsonVal {
    Str(Seq<char>),
    Num(Seq<char>),
}

impl View for JsonValue {
    type V = JsonVal;

    open spec fn view(&self) -> JsonVal {
        match self {
            JsonValue::Str(s) => JsonVal::Str(s@),
            JsonValue::Num(s) => JsonVal::Num(s@),
        }
    }
}

/// One `key: value` member of a JSON object.
#[derive(Debug)]
pub struct JsonMember {
    pub key: String,
    pub value: JsonValue,
}

impl View for JsonMember {
    type V = (Seq<char>, JsonVal);

    open spec fn view(&self) -> (Seq<char>, JsonVal) {
        (self.key@, self.value@)
    }
}

pub open spec fn is_ws(c: char) -> bool {
    c == ' ' || c == '\t'
}

/// First index at or after `i` holding a non-blank character.
pub open spec fn skip_ws(s: Seq<char>, i: int) -> int
    decreases s.len() - i,
{
    if 0 <= i < s.len() && is_ws(s[i]) {
        skip_ws(s, i + 1)
    } else {
        i
    }
}

/// Index of the closing quote at or after `i`: the scan fails on a
/// backslash (no escapes in the subset) and at the end of the text.
pub open spec fn scan_string_end(s: Seq<char>, i: int) -> Option<int>
    decreases s.len() - i,
{
    if !(0 <= i < s.len()) {
        None
    } else if s[i] == '"' {
        Some(i)
    } else if s[i] == '\\' {
        None
    } else {
        scan_string_end(s, i + 1)
    }
}

/// A JSON string starting at `i`: its text and the index after the closing
/// quote.
pub open spec fn spec_jstring(s: Seq<char>, i: int) -> Option<(Seq<char>, int)> {
    if 0 <= i < s.len() && s[i] == '"' {
        match scan_string_end(s, i + 1) {
            Some(j) => Some((s.subrange(i + 1, j), j + 1)),
            None => None,
        }
    } else {
        None
    }
}

/// First index at or after `i` holding a non-digit.
pub open spec fn skip_digits(s: Seq<char>, i: int) -> int
    decreases s.len() - i,
{
    if 0 <= i < s.len() && is_digit_char(s[i]) {
        skip_digits(s, i + 1)
    } else {
        i
    }
}

/// A JSON number starting at `i` (optional minus, digits, optional point
/// and digits): its verbatim text and the index after it.
pub open spec fn spec_jnumber(s: Seq<char>, i: int) -> Option<(Seq<char>, int)> {
    if !(0 <= i <= s.len()) {
        None
    } else {
        let j0 = if i < s.len() && s[i] == '-' {
            i + 1
        } else {
            i
        };
        let j1 = skip_digits(s, j0);
        if j1 == j0 {
            None
        } else if j1 < s.len() && s[j1] == '.' {
            let j2 = skip_digits(s, j1 + 1);
            if j2 == j1 + 1 {
                None
            } else {
                Some((s.subrange(i, j2), j2))
            }
        } else {
            Some((s.subrange(i, j1), j1))
        }
    }
}

/// A JSON scalar at `i`: a string or a number.
pub open spec fn spec_jvalue(s: Seq<char>, i: int) -> Option<(JsonVal, int)> {
    if 0 <= i < s.len() && s[i] == '"' {
        match spec_jstring(s, i) {
            Some((t, j)) => Some((JsonVal::Str(t), j)),
            None => None,
        }
    } else {
        match spec_jnumber(s, i) {
            Some((t, j)) => Some((JsonVal::Num(t), j)),
            None => None,
        }
    }
}

/// One `"key" : value` member at `i`.
pub open spec fn spec_jmember(s: Seq<char>, i: int) -> Option<((Seq<char>, JsonVal), int)> {
    match spec_jstring(s, i) {
        None => None,
        Some((key, j)) => {
            let j1 = skip_ws(s, j);
            if j1 < s.len() && s[j1] == ':' {
                let j2 = skip_ws(s, j1 + 1);
                match spec_jvalue(s, j2) {
                    Some((v, j3)) => Some(((key, v), j3)),
                    None => None,
                }
            } else {
                None
            }
        },
    }
}

/// A comma-separated member list starting at `i`. `fuel` bounds the member
/// count; the object parser passes the line's length, which one member per
/// at least one character can never exhaust.
pub open spec fn spec_jmembers(s: Seq<char>, i: int, fuel: nat) -> Option<
    (Seq<(Seq<char>, JsonVal)>, int),
>
    decreases fuel,
{
    if fuel == 0 {
        None
    } else {
        match spec_jmember(s, i) {
            None => None,
            Some((m, j)) => {
                let j1 = skip_ws(s, j);
                if j1 < s.len() && s[j1] == ',' {
                    match spec_jmembers(s, skip_ws(s, j1 + 1), (fuel - 1) as nat) {
                        Some((rest, j2)) => Some((seq![m] + rest, j2)),
                        None => None,
                    }
                } else {
                    Some((seq![m], j))
                }
            },
        }
    }
}

/// A whole line holding one JSON object of the subset, nothing else around
/// it but blanks: its members in order.
pub open spec fn spec_jobject_line(s: Seq<char>) -> Option<Seq<(Seq<char>, JsonVal)>> {
    let i0 = skip_ws(s, 0);
    if !(i0 < s.len() && s[i0] == '{') {
        None
    } else {
        let i1 = skip_ws(s, i0 + 1);
        if i1 < s.len() && s[i1] == '}' {
            if skip_ws(s, i1 + 1) == s.len() {
                Some(Seq::empty())
            } else {
                None
            }
        } else {
            match spec_jmembers(s, i1, s.len() as nat) {
                None => None,
                Some((ms, j)) => {
                    let j1 = skip_ws(s, j);
                    if j1 < s.len() && s[j1] == '}' && skip_ws(s, j1 + 1) == s.len() {
                        Some(ms)
                    } else {
                        None
                    }
                },
            }
        }
    }
}

/// How many members carry this key.
pub open spec fn count_key(ms: Seq<(Seq<char>, JsonVal)>, key: Seq<char>) -> nat
    decreases ms.len(),
{
    if ms.len() == 0 {
        0
    } else {
        count_key(ms.drop_last(), key) + if ms.last().0 == key {
            1nat
        } else {
            0nat
        }
    }
}

/// The value of the last member with this key.
pub open spec fn lookup_key(ms: Seq<(Seq<char>, JsonVal)>, key: Seq<char>) -> Option<JsonVal>
    decreases ms.len(),
{
    if ms.len() == 0 {
        None
    } else if ms.last().0 == key {
        Some(ms.last().1)
    } else {
        lookup_key(ms.drop_last(), key)
    }
}

/// The text of the string member under `key`, provided the key appears
/// exactly once and its value is a string.
pub open spec fn spec_get_str(ms: Seq<(Seq<char>, JsonVal)>, key: Seq<char>) -> Option<Seq<char>> {
    if count_key(ms, key) == 1 {
        match lookup_key(ms, key) {
            Some(JsonVal::Str(v)) => Some(v),
            _ => None,
        }
    } else {
        None
    }
}

/// The verbatim text of the number member under `key`, provided the key
/// appears exactly once and its value is a number.
pub open spec fn spec_get_num(ms: Seq<(Seq<char>, JsonVal)>, key: Seq<char>) -> Option<Seq<char>> {
    if count_key(ms, key) == 1 {
        match lookup_key(ms, key) {
            Some(JsonVal::Num(v)) => Some(v),
            _ => None,
        }
    } else {
        None
    }
}

/// The hotel record an object's members describe, if all six fields are
/// present exactly once and of the right kind.
pub open spec fn spec_hotel_from_members(ms: Seq<(Seq<char>, JsonVal)>) -> Option<HotelView> {
    match (
        spec_get_str(ms, "id"@),
        spec_get_str(ms, "city_code"@),
        spec_get_str(ms, "name"@),
        spec_get_num(ms, "category"@),
        spec_get_str(ms, "country_code"@),
        spec_get_str(ms, "city"@),
    ) {
        (Some(id), Some(city_code), Some(name), Some(category), Some(country_code), Some(city)) =>
            Some(
            HotelView { id, city_code, name, category, country_code, city },
        ),
        _ => None,
    }
}

/// What one hotel line denotes.
pub open spec fn spec_parse_hotel_line(s: Seq<char>) -> Option<HotelView> {
    match spec_jobject_line(s) {
        None => None,
        Some(ms) => spec_hotel_from_members(ms),
    }
}

fn skip_ws_exec(s: &str, i: usize) -> (r: usize)
    requires
        i <= s@.len(),
    ensures
        r == skip_ws(s@, i as int),
        i <= r <= s@.len(),
{
    let len = s.unicode_len();
    let mut r = i;
    while r < len
        invariant
            i <= r <= len,
            len == s@.len(),
            skip_ws(s@, i as int) == skip_ws(s@, r as int),
        decreases len - r,
    {
        let c = s.get_char(r);
        if !(c == ' ' || c == '\t') {
            return r;
        }
        r = r + 1;
    }
    r
}

fn scan_string_end_exec(s: &str, i: usize) -> (r: Option<usize>)
    requires
        i <= s@.len(),
    ensures
        match r {
            Some(j) => scan_string_end(s@, i as int) == Some(j as int) && i <= j < s@.len(),
            None => scan_string_end(s@, i as int) is None,
        },
{
    let len = s.unicode_len();
    let mut j = i;
    while j < len
        invariant
            i <= j <= len,
            len == s@.len(),
            scan_string_end(s@, i as int) == scan_string_end(s@, j as int),
        decreases len - j,
    {
        let c = s.get_char(j);
        if c == '"' {
            return Some(j);
        }
        if c == '\\' {
            return None;
        }
        j = j + 1;
    }
    None
}

fn jstring_exec(s: &str, i: usize) -> (r: Option<(String, usize)>)
    requires
        i <= s@.len(),
    ensures
        match r {
            Some((t, j)) => spec_jstring(s@, i as int) == Some((t@, j as int)) && i < j <= s@.len(),
            None => spec_jstring(s@, i as int) is None,
        },
{
    let len = s.unicode_len();
    if !(i < len && s.get_char(i) == '"') {
        return None;
    }
    match scan_string_end_exec(s, i + 1) {
        Some(j) => {
            let t = s.substring_char(i + 1, j).to_owned();
            Some((t, j + 1))
        },
        None => None,
    }
}

fn skip_digits_exec(s: &str, i: usize) -> (r: usize)
    requires
        i <= s@.len(),
    ensures
        r == skip_digits(s@, i as int),
        i <= r <= s@.len(),
{
    let len = s.unicode_len();
    let mut r = i;
    while r < len
        invariant
            i <= r <= len,
            len == s@.len(),
            skip_digits(s@, i as int) == skip_digits(s@, r as int),
        decreases len - r,
    {
        let c = s.get_char(r);
        let v = c as u32;
        if !(48 <= v && v <= 57) {
            return r;
        }
        r = r + 1;
    }
    r
}

fn jnumber_exec(s: &str, i: usize) -> (r: Option<(String, usize)>)
    requires
        i <= s@.len(),
    ensures
        match r {
            Some((t, j)) => spec_jnumber(s@, i as int) == Some((t@, j as int)) && i < j <= s@.len(),
            None => spec_jnumber(s@, i as int) is None,
        },
{
    let len = s.unicode_len();
    let j0 = if i < len && s.get_char(i) == '-' {
        i + 1
    } else {
        i
    };
    let j1 = skip_digits_exec(s, j0);
    if j1 == j0 {
        return None;
    }
    if j1 < len && s.get_char(j1) == '.' {
        let j2 = skip_digits_exec(s, j1 + 1);
        if j2 == j1 + 1 {
            None
        } else {
            Some((s.substring_char(i, j2).to_owned(), j2))
        }
    } else {
        Some((s.substring_char(i, j1).to_owned(), j1))
    }
}

fn jvalue_exec(s: &str, i: usize) -> (r: Option<(JsonValue, usize)>)
    requires
        i <= s@.len(),
    ensures
        match r {
            Some((v, j)) => spec_jvalue(s@, i as int) == Some((v@, j as int)) && i < j <= s@.len(),
            None => spec_jvalue(s@, i as int) is None,
        },
{
    let len = s.unicode_len();
    if i < len && s.get_char(i) == '"' {
        match jstring_exec(s, i) {
            Some((t, j)) => Some((JsonValue::Str(t), j)),
            None => None,
        }
    } else {
        match jnumber_exec(s, i) {
            Some((t, j)) => Some((JsonValue::Num(t), j)),
            None => None,
        }
    }
}

fn jmember_exec(s: &str, i: usize) -> (r: Option<(JsonMember, usize)>)
    requires
        i <= s@.len(),
    ensures
        match r {
            Some((m, j)) => spec_jmember(s@, i as int) == Some((m@, j as int)) && i < j <= s@.len(),
            None => spec_jmember(s@, i as int) is None,
        },
{
    let len = s.unicode_len();
    let (key, j) = match jstring_exec(s, i) {
        Some(kj) => kj,
        None => {
            return None;
        },
    };
    let j1 = skip_ws_exec(s, j);
    if !(j1 < len && s.get_char(j1) == ':') {
        return None;
    }
    let j2 = skip_ws_exec(s, j1 + 1);
    match jvalue_exec(s, j2) {
        Some((v, j3)) => Some((JsonMember { key, value: v }, j3)),
        None => None,
    }
}

/// The views of a member list.
pub open spec fn member_views(ms: Seq<JsonMember>) -> Seq<(Seq<char>, JsonVal)> {
    Seq::new(ms.len(), |i: int| ms[i]@)
}

fn jmembers_exec(s: &str, i: usize, fuel: usize) -> (r: Option<(Vec<JsonMember>, usize)>)
    requires
        i <= s@.len(),
    ensures
        match r {
            Some((ms, j)) => spec_jmembers(s@, i as int, fuel as nat) == Some(
                (member_views(ms@), j as int),
            ) && j <= s@.len(),
            None => spec_jmembers(s@, i as int, fuel as nat) is None,
        },
    decreases fuel,
{
    let len = s.unicode_len();
    if fuel == 0 {
        return None;
    }
    let (m, j) = match jmember_exec(s, i) {
        Some(mj) => mj,
        None => {
            return None;
        },
    };
    let j1 = skip_ws_exec(s, j);
    if j1 < len && s.get_char(j1) == ',' {
        let nxt = skip_ws_exec(s, j1 + 1);
        match jmembers_exec(s, nxt, fuel - 1) {
            Some((rest, j2)) => {
                let ghost restv = rest@;
                let mut ms = rest;
                ms.insert(0, m);
                proof {
                    assert(member_views(ms@) =~~= seq![m@] + member_views(restv));
                }
                Some((ms, j2))
            },
            None => None,
        }
    } else {
        let ms = vec![m];
        proof {
            assert(member_views(ms@) =~~= seq![m@]);
        }
        Some((ms, j))
    }
}

fn jobject_line_exec(s: &str) -> (r: Option<Vec<JsonMember>>)
    ensures
        match r {
            Some(ms) => spec_jobject_line(s@) == Some(member_views(ms@)),
            None => spec_jobject_line(s@) is None,
        },
{
    let len = s.unicode_len();
    let i0 = skip_ws_exec(s, 0);
    if !(i0 < len && s.get_char(i0) == '{') {
        return None;
    }
    let i1 = skip_ws_exec(s, i0 + 1);
    if i1 < len && s.get_char(i1) == '}' {
        if skip_ws_exec(s, i1 + 1) == len {
            let ms: Vec<JsonMember> = Vec::new();
            proof {
                assert(member_views(ms@) =~~= Seq::<(Seq<char>, JsonVal)>::empty());
            }
            return Some(ms);
        } else {
            return None;
        }
    }
    match jmembers_exec(s, i1, len) {
        None => None,
        Some((ms, j)) => {
            let j1 = skip_ws_exec(s, j);
            if j1 < len && s.get_char(j1) == '}' && skip_ws_exec(s, j1 + 1) == len {
                Some(ms)
            } else {
                None
            }
        },
    }
}

/// Looks up the string member under `key`, demanding exactly one occurrence.
fn get_str_exec(ms: &Vec<JsonMember>, key: &str) -> (r: Option<String>)
    ensures
        match r {
            Some(v) => spec_get_str(member_views(ms@), key@) == Some(v@),
            None => spec_get_str(member_views(ms@), key@) is None,
        },
{
    let ghost msv = member_views(ms@);
    let mut cnt: usize = 0;
    let mut found: Option<String> = None;
    let mut i: usize = 0;
    proof {
        assert(msv.take(0) =~~= Seq::<(Seq<char>, JsonVal)>::empty());
    }
    while i < ms.len()
        invariant
            0 <= i <= ms.len(),
            msv == member_views(ms@),
            cnt <= i,
            cnt == count_key(msv.take(i as int), key@),
            match found {
                Some(v) => lookup_key(msv.take(i as int), key@) matches Some(JsonVal::Str(w)) && w
                    == v@,
                None => !(lookup_key(msv.take(i as int), key@) matches Some(JsonVal::Str(_))),
            },
        decreases ms.len() - i,
    {
        proof {
            assert(msv.take(i as int + 1).drop_last() =~~= msv.take(i as int));
            assert(msv.take(i as int + 1).last() == msv[i as int]);
            assert(msv[i as int] == ms@[i as int]@);
        }
        let m = &ms[i];
        if str_equals(m.key.as_str(), key) {
            cnt = cnt + 1;
            match &m.value {
                JsonValue::Str(v) => {
                    found = Some(v.clone());
                },
                JsonValue::Num(_) => {
                    found = None;
                },
            }
        }
        i = i + 1;
    }
    proof {
        assert(msv.take(ms@.len() as int) =~~= msv);
    }
    if cnt == 1 {
        found
    } else {
        None
    }
}

/// Looks up the number member under `key`, demanding exactly one occurrence.
fn get_num_exec(ms: &Vec<JsonMember>, key: &str) -> (r: Option<String>)
    ensures
        match r {
            Some(v) => spec_get_num(member_views(ms@), key@) == Some(v@),
            None => spec_get_num(member_views(ms@), key@) is None,
        },
{
    let ghost msv = member_views(ms@);
    let mut cnt: usize = 0;
    let mut found: Option<String> = None;
    let mut i: usize = 0;
    proof {
        assert(msv.take(0) =~~= Seq::<(Seq<char>, JsonVal)>::empty());
    }
    while i < ms.len()
        invariant
            0 <= i <= ms.len(),
            msv == member_views(ms@),
            cnt <= i,
            cnt == count_key(msv.take(i as int), key@),
            match found {
                Some(v) => lookup_key(msv.take(i as int), key@) matches Some(JsonVal::Num(w)) && w
                    == v@,
                None => !(lookup_key(msv.take(i as int), key@) matches Some(JsonVal::Num(_))),
            },
        decreases ms.len() - i,
    {
        proof {
            assert(msv.take(i as int + 1).drop_last() =~~= msv.take(i as int));
            assert(msv.take(i as int + 1).last() == msv[i as int]);
            assert(msv[i as int] == ms@[i as int]@);
        }
        let m = &ms[i];
        if str_equals(m.key.as_str(), key) {
            cnt = cnt + 1;
            match &m.value {
                JsonValue::Num(v) => {
                    found = Some(v.clone());
                },
                JsonValue::Str(_) => {
                    found = None;
                },
            }
        }
        i = i + 1;
    }
    proof {
        assert(msv.take(ms@.len() as int) =~~= msv);
    }
    if cnt == 1 {
        found
    } else {
        None
    }
}

/// Reads one hotel line: a JSON object of the subset with the six hotel
/// fields, each exactly once.
pub fn parse_hotel_line(s: &str) -> (r: Option<HotelsRecords>)
    ensures
        match r {
            Some(rec) => spec_parse_hotel_line(s@) == Some(rec@),
            None => spec_parse_hotel_line(s@) is None,
        },
{
    let ms = match jobject_line_exec(s) {
        Some(ms) => ms,
        None => {
            return None;
        },
    };
    let id = get_str_exec(&ms, "id");
    let city_code = get_str_exec(&ms, "city_code");
    let name = get_str_exec(&ms, "name");
    let category = get_num_exec(&ms, "category");
    let country_code = get_str_exec(&ms, "country_code");
    let city = get_str_exec(&ms, "city");
    match (id, city_code, name, category, country_code, city) {
        (Some(id), Some(city_code), Some(name), Some(category), Some(country_code), Some(city)) => {
            let rec = HotelsRecords { id, city_code, name, category, country_code, city };
            Some(rec)
        },
        _ => None,
    }
}

/// The records of the hotel lines starting at 1-based line `base`: every
/// line must hold one well-formed hotel object; the first malformed line
/// (blank lines included) aborts with its number.
pub open spec fn spec_load_hotels(ls: Seq<Seq<char>>, base: nat) -> Result<Seq<HotelView>, nat>
    decreases ls.len(),
{
    if ls.len() == 0 {
        Ok(Seq::empty())
    } else {
        match spec_parse_hotel_line(ls[0]) {
            None => Err(base),
            Some(v) => match spec_load_hotels(ls.drop_first(), base + 1) {
                Err(e) => Err(e),
                Ok(rest) => Ok(seq![v] + rest),
            },
        }
    }
}

/// Loads the hotel directory from the file's text: one JSON object per
/// line. Fails with the 1-based number of the first malformed line.
pub fn get_hotels(text: &str) -> (r: Result<Vec<HotelsRecords>, LoadError>)
    ensures
        match r {
            Ok(v) => spec_load_hotels(lines_of(text@), 1nat) == Ok::<Seq<HotelView>, nat>(
                hotel_views(v@),
            ),
            Err(e) => spec_load_hotels(lines_of(text@), 1nat) == Err::<Seq<HotelView>, nat>(
                e.line_number as nat,
            ),
        },
{
    let lines = text_lines(text);
    let ghost all = lines_of(text@);
    let mut out: Vec<HotelsRecords> = Vec::new();
    let ghost mut done: Seq<HotelView> = Seq::empty();
    let mut i: usize = 0;
    proof {
        assert(all.skip(0) =~~= all);
    }
    while i < lines.len()
        invariant
            0 <= i <= lines.len(),
            all == lines_of(text@),
            views_of(lines@) == all,
            done.len() == out@.len(),
            forall|j: int| 0 <= j < out@.len() ==> #[trigger] out@[j]@ == done[j],
            spec_load_hotels(all, 1nat) == (match spec_load_hotels(
                all.skip(i as int),
                (i + 1) as nat,
            ) {
                Ok(rest) => Ok::<Seq<HotelView>, nat>(done + rest),
                Err(e) => Err::<Seq<HotelView>, nat>(e),
            }),
        decreases lines.len() - i,
    {
        proof {
            assert(all.skip(i as int)[0] == all[i as int]);
            assert(all.skip(i as int).drop_first() =~~= all.skip(i as int + 1));
            assert(all[i as int] == lines@[i as int]@);
        }
        let line = &lines[i];
        match parse_hotel_line(line.as_str()) {
            None => {
                proof {
                    assert(all.skip(i as int).len() != 0);
                    assert(spec_load_hotels(all.skip(i as int), (i + 1) as nat) == Err::<
                        Seq<HotelView>,
                        nat,
                    >((i + 1) as nat));
                }
                return Err(LoadError { line_number: i + 1 });
            },
            Some(rec) => {
                proof {
                    let rest_sp = spec_load_hotels(all.skip(i as int + 1), (i + 2) as nat);
                    if rest_sp is Ok {
                        assert(done + (seq![rec@] + rest_sp->Ok_0) =~~= (done.push(rec@))
                            + rest_sp->Ok_0);
                    }
                }
                out.push(rec);
                proof {
                    done = done.push(rec@);
                }
            },
        }
        i = i + 1;
    }
    proof {
        assert(all.skip(lines@.len() as int) =~~= Seq::<Seq<char>>::empty());
        assert(spec_load_hotels(all, 1nat) == Ok::<Seq<HotelView>, nat>(done));
        assert(hotel_views(out@) =~~= done);
    }
    Ok(out)
}

} // verus!
