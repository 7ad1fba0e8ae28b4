//! Parsing the line the external selector hands back.
//!
//! The selector returns one listing line, stripped of its trailing newline:
//! title, link and course name joined by the field separator. The run only
//! needs the link, the second field. A line with fewer than two fields (an
//! empty line when the user cancels, or any unexpected output) is a parse
//! error and ends the run.

use vstd::prelude::*;

use crate::listing::field_sep;
use crate::split::{free_of, occurs_at, split_on, split_on_str};

verus! {

/// The selection line has fewer than the expected fields.
#[derive(Clone, Copy, Debug, PartialEq, Eq, Structural)]
pub enum ParseError {
    TooFewFields,
}

/// A listing line as the selector returns it: the three fields joined by the
/// field separator, without the trailing newline.
pub open spec fn selection_line(title: Seq<char>, link: Seq<char>, course: Seq<char>) -> Seq<
    char,
> {
    title + field_sep() + link + field_sep() + course
}

/// A field after which the separator is recognizable: the field followed by
/// the separator shows the separator first at the field's end, never
/// earlier. This rules out both a separator inside the field and a field
/// whose tail combines with the separator's head into a spurious occurrence.
pub open spec fn clean_field(f: Seq<char>) -> bool {
    forall|i: int| 0 <= i < f.len() ==> !occurs_at(f + field_sep(), field_sep(), i)
}

/// A character with the Unicode white-space property: what the selector's
/// result is stripped of at both ends.
pub open spec fn is_space(c: char) -> bool {
    let u = c as u32;
    ||| (9 <= u && u <= 13)
    ||| u == 32
    ||| u == 0x85
    ||| u == 0xA0
    ||| u == 0x1680
    ||| (0x2000 <= u && u <= 0x200A)
    ||| u == 0x2028
    ||| u == 0x2029
    ||| u == 0x202F
    ||| u == 0x205F
    ||| u == 0x3000
}

/// The sequence with its leading and trailing white space removed.
pub open spec fn trimmed_of(s: Seq<char>) -> Seq<char>
    decreases s.len(),
{
    if s.len() > 0 && is_space(s.first()) {
        trimmed_of(s.drop_first())
    } else if s.len() > 0 && is_space(s.last()) {
        trimmed_of(s.drop_last())
    } else {
        s
    }
}

/// Whether the character has the Unicode white-space property.
fn char_is_space(c: char) -> (r: bool)
    ensures
        r == is_space(c),
{
    let u = c as u32;
    (9 <= u && u <= 13) || u == 32 || u == 0x85 || u == 0xA0 || u == 0x1680 || (0x2000 <= u && u
        <= 0x200A) || u == 0x2028 || u == 0x2029 || u == 0x202F || u == 0x205F || u == 0x3000
}

/// Strips white space from both ends: what the selector's result file holds
/// becomes the single selected line.
pub fn trim_spaces(s: &str) -> (r: String)
    ensures
        r@ == trimmed_of(s@),
{
    let len = s.unicode_len();
    let mut start: usize = 0;
    proof {
        assert(s@.skip(0) =~= s@);
    }
    while start < len && char_is_space(s.get_char(start))
        invariant
            start <= len,
            len == s@.len(),
            trimmed_of(s@) == trimmed_of(s@.skip(start as int)),
        decreases len - start,
    {
        proof {
            let suffix = s@.skip(start as int);
            assert(suffix.first() == s@[start as int]);
            assert(suffix.drop_first() =~= s@.skip(start + 1));
        }
        start += 1;
    }
    if start == len {
        proof {
            assert(s@.skip(start as int) =~= Seq::<char>::empty());
        }
        return String::new();
    }
    proof {
        assert(s@.skip(start as int) =~= s@.subrange(start as int, len as int));
    }
    let mut end: usize = len;
    while end > start + 1 && char_is_space(s.get_char(end - 1))
        invariant
            start < end <= len,
            len == s@.len(),
            !is_space(s@[start as int]),
            trimmed_of(s@) == trimmed_of(s@.subrange(start as int, end as int)),
            trimmed_of(s@.skip(start as int)) == trimmed_of(
                s@.subrange(start as int, end as int),
            ),
        decreases end,
    {
        proof {
            let piece = s@.subrange(start as int, end as int);
            assert(piece.first() == s@[start as int]);
            assert(piece.last() == s@[end - 1]);
            assert(piece.drop_last() =~= s@.subrange(start as int, end - 1));
        }
        end -= 1;
    }
    proof {
        let piece = s@.subrange(start as int, end as int);
        assert(piece.first() == s@[start as int]);
        assert(piece.last() == s@[end - 1]);
    }
    s.substring_char(start, end).to_owned()
}

/// Splits the selection line on the field separator and returns the second
/// field, the link; errors when fewer than two fields are present.
pub fn parse_selection(line: &str) -> (r: Result<String, ParseError>)
    ensures
        split_on(line@, field_sep()).len() >= 2 ==> (r matches Ok(link) && link@ == split_on(
            line@,
            field_sep(),
        )[1]),
        split_on(line@, field_sep()).len() < 2 ==> r == Err::<String, ParseError>(
            ParseError::TooFewFields,
        ),
{
    proof {
        reveal_strlit(" || ");
    }
    let fields = split_on_str(line, " || ");
    if fields.len() >= 2 {
        let link = fields[1].clone();
        proof {
            assert(fields.deep_view()[1] == fields@[1]@);
        }
        Ok(link)
    } else {
        Err(ParseError::TooFewFields)
    }
}

/// A clean field followed by the separator and any remainder splits into
/// that field, then the remainder's own segments.
proof fn lemma_split_step(f: Seq<char>, rest: Seq<char>)
    requires
        clean_field(f),
    ensures
        split_on(f + field_sep() + rest, field_sep()) == seq![f] + split_on(rest, field_sep()),
{
    reveal_strlit(" || ");
    let sep = field_sep();
    let s = f + sep + rest;
    assert(s.subrange(f.len() as int, f.len() + sep.len() as int) =~= sep);
    assert(occurs_at(s, sep, f.len() as int));
    assert forall|j: int| 0 <= j < f.len() implies !occurs_at(s, sep, j) by {
        if occurs_at(s, sep, j) {
            assert(s.subrange(j, j + sep.len() as int) =~= (f + sep).subrange(
                j,
                j + sep.len() as int,
            ));
            assert(occurs_at(f + sep, sep, j));
        }
    }
    crate::split::lemma_first_occurrence_at(s, sep, 0, f.len() as int);
    assert(s.subrange(0, f.len() as int) =~= f);
    assert(s.skip(f.len() + sep.len() as int) =~= rest);
    assert(split_on(s, sep) =~= seq![f] + split_on(rest, sep));
}

/// Serializing a line from a title, link and course name and splitting it
/// back on the field separator recovers the three fields exactly, provided
/// the separator is recognizable: it occurs in no field, and neither the
/// title's nor the link's tail runs together with what follows into a
/// spurious occurrence.
pub proof fn lemma_selection_round_trip(title: Seq<char>, link: Seq<char>, course: Seq<char>)
    requires
        clean_field(title),
        clean_field(link),
        free_of(course, field_sep()),
    ensures
        split_on(selection_line(title, link, course), field_sep()) == seq![title, link, course],
{
    reveal_strlit(" || ");
    let sep = field_sep();
    assert(selection_line(title, link, course) =~= title + sep + (link + sep + course));
    lemma_split_step(title, link + sep + course);
    lemma_split_step(link, course);
    crate::split::lemma_first_occurrence_none(course, sep, 0);
    assert(split_on(course, sep) == seq![course]);
    assert(seq![title] + (seq![link] + seq![course]) =~= seq![title, link, course]);
}

} // verus!
