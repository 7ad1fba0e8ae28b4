//! Decimal numerals: reading a course identifier from configuration text
//! and rendering one into a request URL.

use vstd::prelude::*;

verus! {

/// A decimal digit.
pub open spec fn is_digit_char(c: char) -> bool {
    ('0' as u32) <= (c as u32) && (c as u32) <= ('9' as u32)
}

/// The value of one digit.
pub open spec fn digit_value(c: char) -> int {
    (c as u32) as int - ('0' as u32) as int
}

/// A non-empty, all-digit sequence.
pub open spec fn is_numeral(s: Seq<char>) -> bool {
    s.len() >= 1 && (forall|i: int| 0 <= i < s.len() ==> is_digit_char(s[i]))
}

/// The numeric value of a digit sequence, most significant digit first.
pub open spec fn numeral_value(s: Seq<char>) -> int
    decreases s.len(),
{
    if s.len() == 0 {
        0
    } else {
        numeral_value(s.drop_last()) * 10 + digit_value(s.last())
    }
}

/// An all-digit sequence has a non-negative value.
pub proof fn lemma_numeral_value_nonneg(s: Seq<char>)
    requires
        forall|i: int| 0 <= i < s.len() ==> is_digit_char(s[i]),
    ensures
        numeral_value(s) >= 0,
    decreases s.len(),
{
    if s.len() > 0 {
        lemma_numeral_value_nonneg(s.drop_last());
    }
}

/// Extending an all-digit sequence never shrinks its value: every prefix's
/// value is at most the whole sequence's.
pub proof fn lemma_numeral_prefix_le(s: Seq<char>, k: int)
    requires
        forall|i: int| 0 <= i < s.len() ==> is_digit_char(s[i]),
        0 <= k <= s.len(),
    ensures
        numeral_value(s.take(k)) <= numeral_value(s),
    decreases s.len(),
{
    if k == s.len() {
        assert(s.take(k) =~= s);
    } else {
        assert(s.drop_last().take(k) =~= s.take(k));
        lemma_numeral_prefix_le(s.drop_last(), k);
        lemma_numeral_value_nonneg(s.drop_last());
    }
}

/// Reads a `u32` from a decimal numeral: every non-empty all-digit string
/// whose value fits, and nothing else.
pub fn parse_u32(s: &str) -> (r: Option<u32>)
    ensures
        r == (if is_numeral(s@) && numeral_value(s@) <= u32::MAX as int {
            Some(numeral_value(s@) as u32)
        } else {
            None::<u32>
        }),
{
    let len = s.unicode_len();
    if len == 0 {
        return None;
    }
    let mut n: u64 = 0;
    let mut i: usize = 0;
    while i < len
        invariant
            i <= len,
            len == s@.len(),
            len >= 1,
            forall|k: int| 0 <= k < i ==> is_digit_char(s@[k]),
            n as int == numeral_value(s@.take(i as int)),
            n <= u32::MAX as u64,
        decreases len - i,
    {
        let c = s.get_char(i);
        let cv = c as u32;
        if cv < 48 || cv > 57 {
            assert(!is_digit_char(s@[i as int]));
            return None;
        }
        let d: u64 = (cv - 48) as u64;
        n = n * 10 + d;
        proof {
            let taken = s@.take(i + 1);
            assert(taken.drop_last() =~= s@.take(i as int));
            assert(taken.last() == s@[i as int]);
        }
        if n > u32::MAX as u64 {
            proof {
                if is_numeral(s@) {
                    lemma_numeral_prefix_le(s@, i + 1);
                }
            }
            return None;
        }
        i += 1;
    }
    proof {
        assert(s@.take(len as int) =~= s@);
    }
    Some(n as u32)
}

/// The canonical decimal rendering of a non-negative value: no leading
/// zeros, except that zero itself is one digit.
pub open spec fn decimal_of(x: int) -> Seq<char>
    decreases x,
{
    if x <= 9 {
        seq![digit_char_of(x)]
    } else {
        decimal_of(x / 10) + seq![digit_char_of(x % 10)]
    }
}

/// The digit for a value between 0 and 9.
pub open spec fn digit_char_of(d: int) -> char {
    if d == 0 {
        '0'
    } else if d == 1 {
        '1'
    } else if d == 2 {
        '2'
    } else if d == 3 {
        '3'
    } else if d == 4 {
        '4'
    } else if d == 5 {
        '5'
    } else if d == 6 {
        '6'
    } else if d == 7 {
        '7'
    } else if d == 8 {
        '8'
    } else {
        '9'
    }
}

/// Appends one digit to the buffer.
fn append_digit(buf: &mut String, d: u32)
    requires
        d <= 9,
    ensures
        final(buf)@ == old(buf)@ + seq![digit_char_of(d as int)],
{
    if d == 0 {
        buf.append("0");
        proof {
            reveal_strlit("0");
            assert(buf@ =~= old(buf)@ + seq![digit_char_of(d as int)]);
        }
    } else if d == 1 {
        buf.append("1");
        proof {
            reveal_strlit("1");
            assert(buf@ =~= old(buf)@ + seq![digit_char_of(d as int)]);
        }
    } else if d == 2 {
        buf.append("2");
        proof {
            reveal_strlit("2");
            assert(buf@ =~= old(buf)@ + seq![digit_char_of(d as int)]);
        }
    } else if d == 3 {
        buf.append("3");
        proof {
            reveal_strlit("3");
            assert(buf@ =~= old(buf)@ + seq![digit_char_of(d as int)]);
        }
    } else if d == 4 {
        buf.append("4");
        proof {
            reveal_strlit("4");
            assert(buf@ =~= old(buf)@ + seq![digit_char_of(d as int)]);
        }
    } else if d == 5 {
        buf.append("5");
        proof {
            reveal_strlit("5");
            assert(buf@ =~= old(buf)@ + seq![digit_char_of(d as int)]);
        }
    } else if d == 6 {
        buf.append("6");
        proof {
            reveal_strlit("6");
            assert(buf@ =~= old(buf)@ + seq![digit_char_of(d as int)]);
        }
    } else if d == 7 {
        buf.append("7");
        proof {
            reveal_strlit("7");
            assert(buf@ =~= old(buf)@ + seq![digit_char_of(d as int)]);
        }
    } else if d == 8 {
        buf.append("8");
        proof {
            reveal_strlit("8");
            assert(buf@ =~= old(buf)@ + seq![digit_char_of(d as int)]);
        }
    } else {
        buf.append("9");
        proof {
            reveal_strlit("9");
            assert(buf@ =~= old(buf)@ + seq![digit_char_of(d as int)]);
        }
    }
}

/// Appends the decimal rendering of `x` to the buffer, most significant
/// digit first.
fn append_decimal(buf: &mut String, x: u32)
    ensures
        final(buf)@ == old(buf)@ + decimal_of(x as int),
    decreases x,
{
    if x <= 9 {
        append_digit(buf, x);
    } else {
        assert(x / 10 < x) by (nonlinear_arith)
            requires
                x >= 10,
        ;
        assert(x % 10 <= 9) by (nonlinear_arith);
        append_decimal(buf, x / 10);
        append_digit(buf, x % 10);
        proof {
            assert(buf@ =~= old(buf)@ + decimal_of(x as int));
        }
    }
}

/// Renders a value as its canonical decimal numeral.
pub fn u32_to_decimal(x: u32) -> (r: String)
    ensures
        r@ == decimal_of(x as int),
{
    let mut buf = String::new();
    append_decimal(&mut buf, x);
    proof {
        assert(buf@ =~= decimal_of(x as int));
    }
    buf
}

/// The digit for a value between 0 and 9 is a digit and reads back as that
/// value.
pub proof fn lemma_digit_char_value(d: int)
    requires
        0 <= d <= 9,
    ensures
        is_digit_char(digit_char_of(d)),
        digit_value(digit_char_of(d)) == d,
{
}

/// The decimal rendering reads back as the value it was made from: it is a
/// numeral, and its numeric value is that same value.
pub proof fn lemma_decimal_round_trip(x: int)
    requires
        x >= 0,
    ensures
        is_numeral(decimal_of(x)),
        numeral_value(decimal_of(x)) == x,
    decreases x,
{
    if x <= 9 {
        lemma_digit_char_value(x);
        let d = decimal_of(x);
        assert(d.drop_last() =~= Seq::<char>::empty());
        assert(d.last() == digit_char_of(x));
        assert(numeral_value(d) == numeral_value(Seq::<char>::empty()) * 10 + digit_value(
            digit_char_of(x),
        ));
    } else {
        assert(0 <= x / 10 && x / 10 < x && x == (x / 10) * 10 + x % 10 && 0 <= x % 10 <= 9)
            by (nonlinear_arith)
            requires
                x >= 10,
        ;
        lemma_decimal_round_trip(x / 10);
        lemma_digit_char_value(x % 10);
        let d = decimal_of(x);
        assert(d.drop_last() =~= decimal_of(x / 10));
        assert(d.last() == digit_char_of(x % 10));
        assert forall|i: int| 0 <= i < d.len() implies is_digit_char(d[i]) by {
            if i < d.len() - 1 {
                assert(d[i] == decimal_of(x / 10)[i]);
            }
        }
    }
}

} // verus!
