//! Decimal text of a coordinate.
//!
//! A coordinate is held as the decimal text of its number: an optional minus
//! sign, digits, and optionally a point followed by more digits.

use vstd::prelude::*;
use vstd::std_specs::iter::IteratorSpec;

verus! {

/// One of the ten digits.
pub open spec fn is_digit(c: char) -> bool {
    '0' <= c && c <= '9'
}

/// The text without a leading minus sign.
pub open spec fn unsigned_part(s: Seq<char>) -> Seq<char> {
    if s.len() > 0 && s[0] == '-' {
        s.skip(1)
    } else {
        s
    }
}

/// Digits and points only, starting with a digit, with at most one point.
pub open spec fn digits_and_point(u: Seq<char>) -> bool {
    &&& u.len() > 0 ==> is_digit(u[0])
    &&& forall|i: int| 0 <= i < u.len() ==> is_digit(#[trigger] u[i]) || u[i] == '.'
    &&& forall|i: int, j: int|
        0 <= i < j < u.len() ==> !(#[trigger] u[i] == '.' && #[trigger] u[j] == '.')
}

/// Whether the text is a decimal number: `-?digits(.digits)?`.
pub open spec fn is_number_text(s: Seq<char>) -> bool {
    let u = unsigned_part(s);
    &&& u.len() > 0
    &&& digits_and_point(u)
    &&& is_digit(u.last())
}

/// A number text holds none of the characters that delimit coordinates.
pub proof fn lemma_number_text_chars(s: Seq<char>)
    requires
        is_number_text(s),
    ensures
        s.len() > 0,
        forall|i: int|
            0 <= i < s.len() ==> is_digit(#[trigger] s[i]) || s[i] == '.' || s[i] == '-',
{
    let u = unsigned_part(s);
    assert forall|i: int| 0 <= i < s.len() implies is_digit(#[trigger] s[i]) || s[i] == '.'
        || s[i] == '-' by {
        if s[0] == '-' {
            if i > 0 {
                assert(s[i] == u[i - 1]);
            }
        } else {
            assert(s[i] == u[i]);
        }
    }
}

/// Whether a string is the decimal text of a number.
pub fn is_number(s: &str) -> (b: bool)
    ensures
        b == is_number_text(s@),
{
    let mut first = true;
    let mut empty = true;
    let mut valid = true;
    let mut seen_point = false;
    let mut last_digit = false;
    let ghost mut seen: Seq<char> = Seq::empty();
    for c in it: s.chars()
        invariant
            it.seq() == s@,
            seen == s@.take(it.index() as int),
            first == (seen.len() == 0),
            empty == (unsigned_part(seen).len() == 0),
            valid == digits_and_point(unsigned_part(seen)),
            seen_point == exists|i: int|
                0 <= i < unsigned_part(seen).len() && #[trigger] unsigned_part(seen)[i] == '.',
            last_digit == (unsigned_part(seen).len() > 0 && is_digit(unsigned_part(seen).last())),
    {
        let ghost before = seen;
        let ghost u0 = unsigned_part(before);
        proof {
            seen = seen.push(c);
            assert(seen == s@.take(it.index() + 1));
        }
        if first && c == '-' {
            first = false;
            proof {
                assert(unsigned_part(seen) =~= Seq::<char>::empty());
            }
        } else {
            let d = '0' <= c && c <= '9';
            proof {
                let u1 = unsigned_part(seen);
                assert(u1 =~= u0.push(c));
                assert(u1.drop_last() =~= u0);
                if digits_and_point(u1) {
                    assert(is_digit(u1[u1.len() - 1]) || u1[u1.len() - 1] == '.');
                    assert forall|i: int, j: int| 0 <= i < j < u0.len() implies !(#[trigger] u0[i]
                        == '.' && #[trigger] u0[j] == '.') by {
                        assert(u0[i] == u1[i] && u0[j] == u1[j]);
                    }
                    assert forall|i: int| 0 <= i < u0.len() implies is_digit(#[trigger] u0[i])
                        || u0[i] == '.' by {
                        assert(u0[i] == u1[i]);
                    }
                    if u0.len() > 0 {
                        assert(u0[0] == u1[0]);
                    }
                    assert(digits_and_point(u0));
                    if c == '.' {
                        assert(u0.len() > 0);
                        if seen_point {
                            let k = choose|k: int| 0 <= k < u0.len() && #[trigger] u0[k] == '.';
                            assert(u1[k] == '.' && u1[u1.len() - 1] == '.');
                        }
                    }
                }
                if seen_point {
                    let k = choose|k: int| 0 <= k < u0.len() && #[trigger] u0[k] == '.';
                    assert(u1[k] == '.');
                }
                if c == '.' {
                    assert(u1[u1.len() - 1] == '.');
                }
            }
            if d {
            } else if c == '.' {
                if seen_point || empty {
                    valid = false;
                }
                seen_point = true;
            } else {
                valid = false;
            }
            last_digit = d;
            empty = false;
            first = false;
            proof {
                let u1 = unsigned_part(seen);
                if valid {
                    assert forall|i: int| 0 <= i < u1.len() implies is_digit(#[trigger] u1[i])
                        || u1[i] == '.' by {
                        if i < u0.len() {
                            assert(u1[i] == u0[i]);
                        }
                    }
                    assert forall|i: int, j: int| 0 <= i < j < u1.len() implies !(#[trigger] u1[i]
                        == '.' && #[trigger] u1[j] == '.') by {
                        if j < u0.len() {
                            assert(u0[i] == u1[i] && u0[j] == u1[j]);
                        } else if u1[i] == '.' && c == '.' {
                            assert(u0[i] == '.');
                        }
                    }
                    if u0.len() > 0 {
                        assert(u1[0] == u0[0]);
                    }
                    assert(digits_and_point(u1));
                }
            }
        }
    }
    proof {
        assert(seen == s@);
    }
    valid && !empty && last_digit
}

} // verus!
