//! Small verified string utilities: reading characters out, building
//! strings up, and decimal formatting of numbers.

use vstd::prelude::*;
use vstd::std_specs::iter::IteratorSpec;

verus! {

/// Relies on `String::push`: appends one character to the string.
#[verifier::external_body]
pub fn push_char(s: &mut String, c: char)
    ensures
        final(s)@ == old(s)@.push(c),
{
    s.push(c);
}

/// Relies on `char::from_u32`: yields the character with scalar value `u`
/// exactly when `u` is a Unicode scalar value (not a surrogate, at most
/// U+10FFFF).
#[verifier::external_body]
pub fn char_from_u32(u: u32) -> (r: Option<char>)
    ensures
        r matches Some(c) ==> c as u32 == u,
        r is Some <==> vstd::utf8::is_scalar(u),
{
    char::from_u32(u)
}

/// The characters of a string slice, in order.
pub fn chars_of(s: &str) -> (r: Vec<char>)
    ensures
        r@ == s@,
{
    broadcast use vstd::string::axiom_spec_iter;
    broadcast use vstd::string::next_postcondition;

    let mut it = s.chars();
    let mut out: Vec<char> = Vec::new();
    proof {
        assert(it.remaining() == s@);
    }
    loop
        invariant
            out@.add(it.remaining()) == s@,
            out@.len() <= s@.len(),
        decreases s@.len() - out@.len(),
    {
        let ghost rem0 = it.remaining();
        match it.next() {
            Some(c) => {
                out.push(c);
                proof {
                    assert(out@.add(it.remaining()) =~= s@);
                }
            },
            None => {
                proof {
                    assert(out@ =~= s@);
                }
                return out;
            },
        }
    }
}

/// A string holding the given characters.
pub fn string_from_chars(v: &Vec<char>) -> (r: String)
    ensures
        r@ == v@,
{
    let mut out = String::new();
    let n = v.len();
    let mut i: usize = 0;
    while i < n
        invariant
            n == v@.len(),
            i <= n,
            out@ =~= v@.take(i as int),
        decreases n - i,
    {
        push_char(&mut out, v[i]);
        proof {
            assert(out@ =~= v@.take(i + 1 as int));
        }
        i += 1;
    }
    proof {
        assert(out@ =~= v@);
    }
    out
}

/// A copy of a string with the same characters.
pub fn dup_string(s: &String) -> (r: String)
    ensures
        r@ == s@,
{
    s.clone()
}

/// The concatenation of two string slices.
pub fn concat_str(a: &str, b: &str) -> (r: String)
    ensures
        r@ == a@.add(b@),
{
    let mut out = String::new();
    let ca = chars_of(a);
    let cb = chars_of(b);
    let mut i: usize = 0;
    let n = ca.len();
    while i < n
        invariant
            n == ca@.len(),
            i <= n,
            ca@ == a@,
            out@ =~= a@.take(i as int),
        decreases n - i,
    {
        push_char(&mut out, ca[i]);
        proof {
            assert(out@ =~= a@.take(i + 1 as int));
        }
        i += 1;
    }
    proof {
        assert(out@ =~= a@);
    }
    let m = cb.len();
    let mut j: usize = 0;
    while j < m
        invariant
            m == cb@.len(),
            j <= m,
            cb@ == b@,
            out@ =~= a@.add(b@.take(j as int)),
        decreases m - j,
    {
        push_char(&mut out, cb[j]);
        proof {
            assert(out@ =~= a@.add(b@.take(j + 1 as int)));
        }
        j += 1;
    }
    proof {
        assert(out@ =~= a@.add(b@));
    }
    out
}

/// The decimal digit character for `d` in `0..10`.
pub open spec fn spec_dec_digit(d: int) -> char {
    if d == 0 {
        '0'
    } else if d == 1 {
        '1'
    } else if d == 2 {
        '2'
    } else if d == 3 {
        '3'
    } else if d == 4 {
        '4'
    } else if d == 5 {
        '5'
    } else if d == 6 {
        '6'
    } else if d == 7 {
        '7'
    } else if d == 8 {
        '8'
    } else {
        '9'
    }
}

/// The decimal digits of `v`, most significant first.
pub open spec fn spec_dec_seq(v: int) -> Seq<char>
    decreases v,
{
    if v < 0 {
        Seq::empty()
    } else if v < 10 {
        seq![spec_dec_digit(v)]
    } else {
        spec_dec_seq(v / 10).push(spec_dec_digit(v % 10))
    }
}

fn dec_digit(d: u64) -> (r: char)
    requires
        d < 10,
    ensures
        r == spec_dec_digit(d as int),
{
    if d == 0 {
        '0'
    } else if d == 1 {
        '1'
    } else if d == 2 {
        '2'
    } else if d == 3 {
        '3'
    } else if d == 4 {
        '4'
    } else if d == 5 {
        '5'
    } else if d == 6 {
        '6'
    } else if d == 7 {
        '7'
    } else if d == 8 {
        '8'
    } else {
        '9'
    }
}

/// Append the decimal digits of `v`.
pub fn push_dec(out: &mut Vec<char>, v: u64)
    ensures
        final(out)@ == old(out)@.add(spec_dec_seq(v as int)),
    decreases v,
{
    if v < 10 {
        out.push(dec_digit(v));
        proof {
            assert(out@ =~= old(out)@.add(spec_dec_seq(v as int)));
        }
    } else {
        push_dec(out, v / 10);
        out.push(dec_digit(v % 10));
        proof {
            assert(out@ =~= old(out)@.add(spec_dec_seq(v as int)));
        }
    }
}

} // verus!
