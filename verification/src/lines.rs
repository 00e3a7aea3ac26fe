//! Text plumbing shared by the loaders and the pipeline: comparing strings,
//! splitting a field row on its delimiter, and cutting a file's text into
//! lines (separator `\n`, with a trailing `\r` stripped from each line and no
//! phantom empty line after a final newline).

use vstd::prelude::*;

verus! {

/// Relies on std's `String::push`: appends the given character to the end of
/// the string. vstd has no specification for it.
pub assume_specification[ String::push ](s: &mut String, ch: char)
    ensures
        final(s)@ == old(s)@.push(ch),
;

/// Index of the first occurrence of `c` in `s`, if any.
pub open spec fn find_char(s: Seq<char>, c: char) -> Option<int>
    decreases s.len(),
{
    if s.len() == 0 {
        None
    } else if s[0] == c {
        Some(0)
    } else {
        match find_char(s.drop_first(), c) {
            Some(i) => Some(i + 1),
            None => None,
        }
    }
}

/// The pieces of `s` between occurrences of the delimiter `d`, in order.
/// Always at least one piece; delimiters at the ends yield empty pieces.
pub open spec fn split_on(s: Seq<char>, d: char) -> Seq<Seq<char>>
    decreases s.len(),
{
    if s.len() == 0 {
        seq![Seq::<char>::empty()]
    } else if s[0] == d {
        seq![Seq::<char>::empty()] + split_on(s.drop_first(), d)
    } else {
        let rest = split_on(s.drop_first(), d);
        seq![seq![s[0]] + rest[0]] + rest.drop_first()
    }
}

/// A split has at least one piece.
pub proof fn lemma_split_on_nonempty(s: Seq<char>, d: char)
    ensures
        split_on(s, d).len() >= 1,
    decreases s.len(),
{
    if s.len() > 0 {
        lemma_split_on_nonempty(s.drop_first(), d);
    }
}

/// Extending the text by one character extends the split: a delimiter opens a
/// new empty piece, any other character lands at the end of the last piece.
pub proof fn lemma_split_on_push(s: Seq<char>, c: char, d: char)
    ensures
        split_on(s.push(c), d) == if c == d {
            split_on(s, d).push(Seq::<char>::empty())
        } else {
            split_on(s, d).update(
                split_on(s, d).len() - 1,
                split_on(s, d).last().push(c),
            )
        },
    decreases s.len(),
{
    lemma_split_on_nonempty(s, d);
    if s.len() == 0 {
        assert(s.push(c).drop_first() =~~= Seq::<char>::empty());
        assert(split_on(Seq::<char>::empty(), d) == seq![Seq::<char>::empty()]);
        assert(s =~~= Seq::<char>::empty());
        if c == d {
            assert(s.push(c)[0] == d);
            assert(split_on(s.push(c), d) == seq![Seq::<char>::empty()] + split_on(
                s.push(c).drop_first(),
                d,
            ));
            assert(split_on(s.push(c), d) =~~= split_on(s, d).push(Seq::<char>::empty()));
        } else {
            assert(s.push(c)[0] == c);
            assert(s.push(c).drop_first() =~~= Seq::<char>::empty());
            assert(split_on(s.push(c), d) =~~= split_on(s, d).update(
                split_on(s, d).len() - 1,
                split_on(s, d).last().push(c),
            ));
        }
    } else {
        lemma_split_on_push(s.drop_first(), c, d);
        lemma_split_on_nonempty(s.drop_first(), d);
        assert(s.push(c)[0] == s[0]);
        assert(s.push(c).drop_first() =~~= s.drop_first().push(c));
        if c == d {
            if s[0] == d {
                assert(split_on(s.push(c), d) =~~= split_on(s, d).push(Seq::<char>::empty()));
            } else {
                let rest = split_on(s.drop_first(), d);
                let rest2 = split_on(s.drop_first().push(c), d);
                assert(rest2 == rest.push(Seq::<char>::empty()));
                assert(rest2[0] == rest[0]);
                assert(rest2.drop_first() =~~= rest.drop_first().push(Seq::<char>::empty()));
                assert(split_on(s.push(c), d) =~~= split_on(s, d).push(Seq::<char>::empty()));
            }
        } else {
            if s[0] == d {
                assert(split_on(s.push(c), d) =~~= split_on(s, d).update(
                    split_on(s, d).len() - 1,
                    split_on(s, d).last().push(c),
                ));
            } else {
                let rest = split_on(s.drop_first(), d);
                let rest2 = split_on(s.drop_first().push(c), d);
                assert(rest2 == rest.update(rest.len() - 1, rest.last().push(c)));
                if rest.len() == 1 {
                    assert(rest2[0] == rest[0].push(c));
                    assert(split_on(s.push(c), d) =~~= split_on(s, d).update(
                        split_on(s, d).len() - 1,
                        split_on(s, d).last().push(c),
                    ));
                } else {
                    assert(rest2[0] == rest[0]);
                    assert(rest2.drop_first() =~~= rest.drop_first().update(
                        rest.drop_first().len() - 1,
                        rest.drop_first().last().push(c),
                    ));
                    assert(split_on(s.push(c), d) =~~= split_on(s, d).update(
                        split_on(s, d).len() - 1,
                        split_on(s, d).last().push(c),
                    ));
                }
            }
        }
    }
}

/// Compares two strings character by character.
pub fn str_equals(a: &str, b: &str) -> (r: bool)
    ensures
        r == (a@ == b@),
{
    let x = a.to_owned();
    let y = b.to_owned();
    x == y
}

/// The views of a vector of strings.
pub open spec fn views_of(v: Seq<String>) -> Seq<Seq<char>> {
    v.map_values(|t: String| t@)
}

/// Splits `s` at every occurrence of the delimiter `d`.
pub fn split_str(s: &str, d: char) -> (r: Vec<String>)
    ensures
        views_of(r@) == split_on(s@, d),
{
    let len = s.unicode_len();
    let mut parts: Vec<String> = Vec::new();
    let mut cur = String::new();
    let mut i: usize = 0;
    proof {
        assert(views_of(parts@).push(cur@) =~~= split_on(s@.take(0), d));
    }
    while i < len
        invariant
            0 <= i <= len,
            len == s@.len(),
            views_of(parts@).push(cur@) == split_on(s@.take(i as int), d),
        decreases len - i,
    {
        let c = s.get_char(i);
        proof {
            assert(s@.take(i as int + 1) =~~= s@.take(i as int).push(s@[i as int]));
            lemma_split_on_push(s@.take(i as int), s@[i as int], d);
            lemma_split_on_nonempty(s@.take(i as int), d);
        }
        if c == d {
            parts.push(cur);
            cur = String::new();
            proof {
                assert(views_of(parts@).push(cur@) =~~= split_on(s@.take(i as int + 1), d));
            }
        } else {
            let mut buf = cur;
            buf.push(c);
            cur = buf;
            proof {
                assert(views_of(parts@).push(cur@) =~~= split_on(s@.take(i as int + 1), d));
            }
        }
        i = i + 1;
    }
    proof {
        assert(s@.take(len as int) =~~= s@);
    }
    parts.push(cur);
    proof {
        assert(views_of(parts@) =~~= split_on(s@, d));
    }
    parts
}

/// A line with one trailing carriage return removed.
pub open spec fn strip_cr(l: Seq<char>) -> Seq<char> {
    if l.len() > 0 && l.last() == '\r' {
        l.drop_last()
    } else {
        l
    }
}

/// The lines of a text: pieces between `\n` separators, each stripped of one
/// trailing `\r`, without the empty piece a final newline would leave.
pub open spec fn lines_of(s: Seq<char>) -> Seq<Seq<char>> {
    let parts = split_on(s, '\n');
    let trimmed = if parts.last().len() == 0 {
        parts.drop_last()
    } else {
        parts
    };
    trimmed.map_values(|l: Seq<char>| strip_cr(l))
}

/// Cuts a text into lines.
pub fn text_lines(s: &str) -> (r: Vec<String>)
    ensures
        views_of(r@) == lines_of(s@),
{
    let mut parts = split_str(s, '\n');
    proof {
        lemma_split_on_nonempty(s@, '\n');
        assert(views_of(parts@).len() == split_on(s@, '\n').len());
    }
    let last_is_empty = parts[parts.len() - 1].as_str().unicode_len() == 0;
    if last_is_empty {
        let ghost before = parts@;
        let _ = parts.pop();
        proof {
            assert(views_of(parts@) =~~= views_of(before).drop_last());
            assert(views_of(before).drop_last() =~~= split_on(s@, '\n').drop_last());
        }
    }
    let ghost trimmed = views_of(parts@);
    let mut out: Vec<String> = Vec::new();
    let mut i: usize = 0;
    while i < parts.len()
        invariant
            0 <= i <= parts.len(),
            views_of(parts@) == trimmed,
            out@.len() == i,
            forall|j: int| 0 <= j < i ==> #[trigger] out@[j]@ == strip_cr(trimmed[j]),
        decreases parts.len() - i,
    {
        let p = &parts[i];
        let plen = p.as_str().unicode_len();
        proof {
            assert(trimmed[i as int] == parts@[i as int]@);
        }
        let stripped: String = if plen > 0 && p.as_str().get_char(plen - 1) == '\r' {
            p.as_str().substring_char(0, plen - 1).to_owned()
        } else {
            p.clone()
        };
        proof {
            assert(stripped@ =~~= strip_cr(trimmed[i as int]));
        }
        out.push(stripped);
        i = i + 1;
    }
    proof {
        assert(views_of(out@) =~~= lines_of(s@));
    }
    out
}

} // verus!
