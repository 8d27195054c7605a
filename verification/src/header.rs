//! The error-info wire codec: ASCII escaping of messages and stack frames,
//! decimal status codes, and the header value list they travel in.
//!
//! The encoder writes printable ASCII verbatim and everything else as a
//! backslash escape; the decoder applies the inverse grammar, which also
//! accepts the byte, octal and fixed-width unicode escape forms.

use vstd::prelude::*;

use crate::status::StatusCode;
use crate::strings::{
    char_from_u32, chars_of, push_dec, spec_dec_seq, string_from_chars,
};

verus! {

/// The lowercase hex digit character for `d` in `0..16`.
pub open spec fn spec_hex_digit(d: int) -> char {
    if d == 0 {
        '0'
    } else if d == 1 {
        '1'
    } else if d == 2 {
        '2'
    } else if d == 3 {
        '3'
    } else if d == 4 {
        '4'
    } else if d == 5 {
        '5'
    } else if d == 6 {
        '6'
    } else if d == 7 {
        '7'
    } else if d == 8 {
        '8'
    } else if d == 9 {
        '9'
    } else if d == 10 {
        'a'
    } else if d == 11 {
        'b'
    } else if d == 12 {
        'c'
    } else if d == 13 {
        'd'
    } else if d == 14 {
        'e'
    } else {
        'f'
    }
}

/// The value of a hex digit character, upper or lower case.
pub open spec fn spec_hex_val(c: char) -> Option<u32> {
    let u = c as u32;
    if 0x30 <= u <= 0x39 {
        Some((u - 0x30) as u32)
    } else if 0x61 <= u <= 0x66 {
        Some((u - 0x61 + 10) as u32)
    } else if 0x41 <= u <= 0x46 {
        Some((u - 0x41 + 10) as u32)
    } else {
        None
    }
}

/// The hex digits of `v`, most significant first, no leading zeros.
pub open spec fn spec_hex_seq(v: int) -> Seq<char>
    decreases v,
{
    if v < 0 {
        Seq::empty()
    } else if v < 16 {
        seq![spec_hex_digit(v)]
    } else {
        spec_hex_seq(v / 16).push(spec_hex_digit(v % 16))
    }
}

/// Hex digits folded into a number from the front; `None` on the first
/// non-digit.
pub open spec fn spec_hex_fold(s: Seq<char>, a: int) -> Option<int>
    decreases s.len(),
{
    if s.len() == 0 {
        Some(a)
    } else {
        match spec_hex_val(s[0]) {
            Some(d) => spec_hex_fold(s.drop_first(), a * 16 + d),
            None => None,
        }
    }
}

/// The number a hex digit string denotes; empty strings denote nothing.
pub open spec fn spec_parse_hex(s: Seq<char>) -> Option<int> {
    if s.len() == 0 {
        None
    } else {
        spec_hex_fold(s, 0)
    }
}

/// Decimal digits folded into a number from the front.
pub open spec fn spec_dec_fold(s: Seq<char>, a: int) -> Option<int>
    decreases s.len(),
{
    if s.len() == 0 {
        Some(a)
    } else {
        let u = s[0] as u32;
        if 0x30 <= u <= 0x39 {
            spec_dec_fold(s.drop_first(), a * 10 + (u - 0x30))
        } else {
            None
        }
    }
}

/// The number a decimal digit string denotes.
pub open spec fn spec_parse_dec(s: Seq<char>) -> Option<int> {
    if s.len() == 0 {
        None
    } else {
        spec_dec_fold(s, 0)
    }
}

/// How one character is written on the wire: printable ASCII verbatim,
/// common control characters and quotes as two-character escapes, the rest
/// as a braced unicode escape in lowercase hex.
pub open spec fn spec_escape_char(c: char) -> Seq<char> {
    if c == '\t' {
        seq!['\\', 't']
    } else if c == '\r' {
        seq!['\\', 'r']
    } else if c == '\n' {
        seq!['\\', 'n']
    } else if c == '\\' {
        seq!['\\', '\\']
    } else if c == '\'' {
        seq!['\\', '\'']
    } else if c == '"' {
        seq!['\\', '"']
    } else if 0x20 <= c as u32 <= 0x7e {
        seq![c]
    } else {
        seq!['\\', 'u', '{'].add(spec_hex_seq(c as u32 as int)).push('}')
    }
}

/// How a string is written on the wire, character by character.
pub open spec fn spec_escape(s: Seq<char>) -> Seq<char>
    decreases s.len(),
{
    if s.len() == 0 {
        Seq::empty()
    } else {
        spec_escape_char(s[0]).add(spec_escape(s.drop_first()))
    }
}

/// Escaping one more character appends its escape form.
pub proof fn lemma_escape_snoc(s: Seq<char>, c: char)
    ensures
        spec_escape(s.push(c)) =~= spec_escape(s).add(spec_escape_char(c)),
    decreases s.len(),
{
    if s.len() == 0 {
        assert(s.push(c).drop_first() =~= Seq::<char>::empty());
        assert(s.push(c)[0] == c);
        assert(spec_escape(Seq::<char>::empty()) == Seq::<char>::empty());
        assert(spec_escape(s) == Seq::<char>::empty());
        assert(spec_escape(s.push(c)) =~= spec_escape_char(c));
        assert(spec_escape(s).add(spec_escape_char(c)) =~= spec_escape_char(c));
    } else {
        assert(s.push(c).drop_first() =~= s.drop_first().push(c));
        lemma_escape_snoc(s.drop_first(), c);
        assert(s.push(c)[0] == s[0]);
    }
}

fn hex_digit(d: u32) -> (r: char)
    requires
        d < 16,
    ensures
        r == spec_hex_digit(d as int),
{
    if d == 0 {
        '0'
    } else if d == 1 {
        '1'
    } else if d == 2 {
        '2'
    } else if d == 3 {
        '3'
    } else if d == 4 {
        '4'
    } else if d == 5 {
        '5'
    } else if d == 6 {
        '6'
    } else if d == 7 {
        '7'
    } else if d == 8 {
        '8'
    } else if d == 9 {
        '9'
    } else if d == 10 {
        'a'
    } else if d == 11 {
        'b'
    } else if d == 12 {
        'c'
    } else if d == 13 {
        'd'
    } else if d == 14 {
        'e'
    } else {
        'f'
    }
}

/// Append the hex digits of `v`.
fn push_hex(out: &mut Vec<char>, v: u32)
    ensures
        final(out)@ == old(out)@.add(spec_hex_seq(v as int)),
    decreases v,
{
    if v < 16 {
        out.push(hex_digit(v));
        proof {
            assert(out@ =~= old(out)@.add(spec_hex_seq(v as int)));
        }
    } else {
        push_hex(out, v / 16);
        out.push(hex_digit(v % 16));
        proof {
            assert(out@ =~= old(out)@.add(spec_hex_seq(v as int)));
        }
    }
}

/// Append the wire form of one character.
fn push_escaped(out: &mut Vec<char>, c: char)
    ensures
        final(out)@ == old(out)@.add(spec_escape_char(c)),
{
    if c == '\t' {
        out.push('\\');
        out.push('t');
    } else if c == '\r' {
        out.push('\\');
        out.push('r');
    } else if c == '\n' {
        out.push('\\');
        out.push('n');
    } else if c == '\\' {
        out.push('\\');
        out.push('\\');
    } else if c == '\'' {
        out.push('\\');
        out.push('\'');
    } else if c == '"' {
        out.push('\\');
        out.push('"');
    } else {
        let u = c as u32;
        if 0x20 <= u && u <= 0x7e {
            out.push(c);
        } else {
            out.push('\\');
            out.push('u');
            out.push('{');
            push_hex(out, u);
            out.push('}');
        }
    }
    proof {
        assert(out@ =~= old(out)@.add(spec_escape_char(c)));
    }
}

/// The wire form of a string of characters.
pub fn escape_chars(v: &Vec<char>) -> (r: Vec<char>)
    ensures
        r@ == spec_escape(v@),
{
    let mut out: Vec<char> = Vec::new();
    let n = v.len();
    let mut i: usize = 0;
    proof {
        assert(v@.take(0) =~= Seq::<char>::empty());
        assert(spec_escape(Seq::<char>::empty()) == Seq::<char>::empty());
        assert(out@ =~= spec_escape(v@.take(0)));
    }
    while i < n
        invariant
            n == v@.len(),
            i <= n,
            out@ == spec_escape(v@.take(i as int)),
        decreases n - i,
    {
        proof {
            lemma_escape_snoc(v@.take(i as int), v@[i as int]);
            assert(v@.take(i + 1 as int) =~= v@.take(i as int).push(v@[i as int]));
        }
        push_escaped(&mut out, v[i]);
        i += 1;
    }
    proof {
        assert(v@.take(n as int) =~= v@);
    }
    out
}

/// The wire form of a string.
pub fn escape_str(s: &str) -> (r: String)
    ensures
        r@ == spec_escape(s@),
{
    let cv = chars_of(s);
    let escaped = escape_chars(&cv);
    string_from_chars(&escaped)
}

/// Whether `c` is an octal digit.
pub open spec fn spec_is_octal(c: char) -> bool {
    0x30 <= c as u32 <= 0x37
}

/// The value of a short octal digit string (one to three digits).
pub open spec fn spec_octal_value(s: Seq<char>) -> int
    recommends
        1 <= s.len() <= 3,
{
    if s.len() == 1 {
        s[0] as u32 - 0x30
    } else if s.len() == 2 {
        (s[0] as u32 - 0x30) * 8 + (s[1] as u32 - 0x30)
    } else {
        (s[0] as u32 - 0x30) * 64 + (s[1] as u32 - 0x30) * 8 + (s[2] as u32 - 0x30)
    }
}

/// The position of the first closing brace at or after `i`.
pub open spec fn spec_find_brace(s: Seq<char>, i: int) -> Option<int>
    recommends
        0 <= i,
    decreases s.len() - i,
{
    if i < 0 || i >= s.len() {
        None
    } else if s[i] == '}' {
        Some(i)
    } else {
        spec_find_brace(s, i + 1)
    }
}

/// A braced or fixed-width unicode escape at the head of `s` (after `\u`):
/// the decoded character and the length consumed.  An unterminated brace
/// takes the rest of the string as digits, as the reference decoder does.
pub open spec fn spec_unit_unicode(s: Seq<char>) -> Option<(char, int)> {
    if s.len() < 3 {
        None
    } else if s[2] == '{' {
        let (digits, consumed): (Seq<char>, int) = match spec_find_brace(s, 3) {
            Some(j) => (s.subrange(3, j), j + 1),
            None => (s.subrange(3, s.len() as int), s.len() as int),
        };
        match spec_parse_hex(digits) {
            Some(v) => {
                if 0 <= v <= u32::MAX && vstd::utf8::is_scalar(v as u32) {
                    Some(((v as u32) as char, consumed))
                } else {
                    None
                }
            },
            None => None,
        }
    } else {
        if s.len() < 6 {
            None
        } else {
            match spec_parse_hex(s.subrange(2, 6)) {
                Some(v) => {
                    if 0 <= v <= u32::MAX && vstd::utf8::is_scalar(v as u32) {
                        Some(((v as u32) as char, 6))
                    } else {
                        None
                    }
                },
                None => None,
            }
        }
    }
}

/// A two-digit byte escape at the head of `s` (after `\x`).
pub open spec fn spec_unit_hex_byte(s: Seq<char>) -> Option<(char, int)> {
    if s.len() < 4 {
        None
    } else {
        match spec_parse_hex(s.subrange(2, 4)) {
            Some(v) => {
                if v <= 0xff {
                    Some(((v as u32) as char, 4))
                } else {
                    None
                }
            },
            None => None,
        }
    }
}

/// An octal escape at the head of `s`: up to three digits when the first is
/// below four, up to two otherwise, taken greedily.
pub open spec fn spec_unit_octal(s: Seq<char>) -> (char, int) {
    let m = s[1];
    let long = m as u32 <= 0x33;
    let e1 = 2 < s.len() && spec_is_octal(s[2]);
    let e2 = long && e1 && 3 < s.len() && spec_is_octal(s[3]);
    let cnt: int = if e2 {
        2
    } else if e1 {
        1
    } else {
        0
    };
    let v = spec_octal_value(s.subrange(1, 2 + cnt));
    (((v as u32) as char), 2 + cnt)
}

/// The first decoded character of `s` and the length it consumes, if the
/// head of `s` is well formed.
pub open spec fn spec_unit(s: Seq<char>) -> Option<(char, int)>
    recommends
        s.len() > 0,
{
    if s[0] != '\\' {
        Some((s[0], 1))
    } else if s.len() < 2 {
        None
    } else {
        let m = s[1];
        if m == 'b' {
            Some(('\u{8}', 2))
        } else if m == 'f' {
            Some(('\u{c}', 2))
        } else if m == 'n' {
            Some(('\n', 2))
        } else if m == 'r' {
            Some(('\r', 2))
        } else if m == 't' {
            Some(('\t', 2))
        } else if m == 'v' {
            Some(('\u{b}', 2))
        } else if m == '\'' || m == '"' || m == '\\' || m == '/' {
            Some((m, 2))
        } else if m == 'u' {
            spec_unit_unicode(s)
        } else if m == 'x' {
            spec_unit_hex_byte(s)
        } else if spec_is_octal(m) {
            Some(spec_unit_octal(s))
        } else {
            None
        }
    }
}

/// The inverse of [`spec_escape`]: the decoded string, or nothing when an
/// escape is malformed.
pub open spec fn spec_unescape(s: Seq<char>) -> Option<Seq<char>>
    decreases s.len(),
{
    if s.len() == 0 {
        Some(Seq::empty())
    } else {
        match spec_unit(s) {
            Some((c, k)) => {
                if 1 <= k <= s.len() {
                    match spec_unescape(s.skip(k)) {
                        Some(rest) => Some(seq![c].add(rest)),
                        None => None,
                    }
                } else {
                    None
                }
            },
            None => None,
        }
    }
}

/// A sub-vector of characters.
fn sub_chars(v: &Vec<char>, a: usize, b: usize) -> (r: Vec<char>)
    requires
        a <= b <= v@.len(),
    ensures
        r@ == v@.subrange(a as int, b as int),
{
    let mut out: Vec<char> = Vec::new();
    let mut i: usize = a;
    while i < b
        invariant
            a <= i <= b <= v@.len(),
            out@ =~= v@.subrange(a as int, i as int),
        decreases b - i,
    {
        out.push(v[i]);
        proof {
            assert(out@ =~= v@.subrange(a as int, i + 1 as int));
        }
        i += 1;
    }
    out
}

fn hex_val(c: char) -> (r: Option<u32>)
    ensures
        r == spec_hex_val(c),
{
    let u = c as u32;
    if 0x30 <= u && u <= 0x39 {
        Some(u - 0x30)
    } else if 0x61 <= u && u <= 0x66 {
        Some(u - 0x61 + 10)
    } else if 0x41 <= u && u <= 0x46 {
        Some(u - 0x41 + 10)
    } else {
        None
    }
}

/// Parse the hex digits of `v` as a number; overflow past `u32` is a
/// failure, as it is for the reference decoder.
fn parse_hex_chars(v: &Vec<char>) -> (r: Option<u32>)
    ensures
        match spec_parse_hex(v@) {
            Some(x) => {
                if x <= u32::MAX {
                    r == Some(x as u32)
                } else {
                    r is None
                }
            },
            None => r is None,
        },
{
    let n = v.len();
    if n == 0 {
        return None;
    }
    let mut acc: u64 = 0;
    let ghost mut g: int = 0;
    let mut i: usize = 0;
    proof {
        assert(v@.skip(0) =~= v@);
    }
    #[verifier::loop_isolation(false)]
    while i < n
        invariant
            i <= n,
            0 <= g,
            spec_hex_fold(v@, 0) == spec_hex_fold(v@.skip(i as int), g),
            acc as int == if g <= 0x1_0000_0000 {
                g
            } else {
                0x1_0000_0000
            },
        decreases n - i,
    {
        proof {
            assert(v@.skip(i as int)[0] == v@[i as int]);
            assert(v@.skip(i as int).drop_first() =~= v@.skip(i + 1 as int));
        }
        let d = match hex_val(v[i]) {
            Some(d) => d,
            None => {
                return None;
            },
        };
        let ghost g0 = g;
        proof {
            g = g0 * 16 + d;
            assert(g >= 0 && g >= g0 * 16) by (nonlinear_arith)
                requires
                    g0 >= 0,
                    g == g0 * 16 + d,
                    d >= 0,
            ;
        }
        let next = acc * 16 + (d as u64);
        if next > 0x1_0000_0000 {
            acc = 0x1_0000_0000;
        } else {
            acc = next;
        }
        proof {
            let cap: int = 0x1_0000_0000;
            if g0 > cap {
                assert(g0 * 16 >= cap * 16) by (nonlinear_arith)
                    requires
                        g0 > cap,
                        cap > 0,
                ;
                assert(g > cap);
            }
        }
        i += 1;
    }
    proof {
        assert(v@.skip(n as int) =~= Seq::<char>::empty());
    }
    if acc <= 0xffff_ffff {
        Some(acc as u32)
    } else {
        None
    }
}

/// Parse a decimal digit string as a number; overflow past `u32` or any
/// non-digit is a failure.
pub fn parse_dec_chars(v: &Vec<char>) -> (r: Option<u32>)
    ensures
        match spec_parse_dec(v@) {
            Some(x) => {
                if x <= u32::MAX {
                    r == Some(x as u32)
                } else {
                    r is None
                }
            },
            None => r is None,
        },
{
    let n = v.len();
    if n == 0 {
        return None;
    }
    let mut acc: u64 = 0;
    let ghost mut g: int = 0;
    let mut i: usize = 0;
    proof {
        assert(v@.skip(0) =~= v@);
    }
    #[verifier::loop_isolation(false)]
    while i < n
        invariant
            i <= n,
            0 <= g,
            spec_dec_fold(v@, 0) == spec_dec_fold(v@.skip(i as int), g),
            acc as int == if g <= 0x1_0000_0000 {
                g
            } else {
                0x1_0000_0000
            },
        decreases n - i,
    {
        proof {
            assert(v@.skip(i as int)[0] == v@[i as int]);
            assert(v@.skip(i as int).drop_first() =~= v@.skip(i + 1 as int));
        }
        let u = v[i] as u32;
        if !(0x30 <= u && u <= 0x39) {
            return None;
        }
        let d = u - 0x30;
        let ghost g0 = g;
        proof {
            g = g0 * 10 + d;
            assert(g >= 0 && g >= g0 * 10) by (nonlinear_arith)
                requires
                    g0 >= 0,
                    g == g0 * 10 + d,
                    d >= 0,
            ;
        }
        let next = acc * 10 + (d as u64);
        if next > 0x1_0000_0000 {
            acc = 0x1_0000_0000;
        } else {
            acc = next;
        }
        proof {
            let cap: int = 0x1_0000_0000;
            if g0 > cap {
                assert(g0 * 10 >= cap * 10) by (nonlinear_arith)
                    requires
                        g0 > cap,
                        cap > 0,
                ;
                assert(g > cap);
            }
        }
        i += 1;
    }
    proof {
        assert(v@.skip(n as int) =~= Seq::<char>::empty());
    }
    if acc <= 0xffff_ffff {
        Some(acc as u32)
    } else {
        None
    }
}

/// A hex fold from a non-negative accumulator stays non-negative.
proof fn lemma_hex_fold_nonneg(s: Seq<char>, a: int)
    requires
        a >= 0,
        spec_hex_fold(s, a) is Some,
    ensures
        spec_hex_fold(s, a)->Some_0 >= 0,
    decreases s.len(),
{
    if s.len() == 0 {
    } else {
        match spec_hex_val(s[0]) {
            Some(d) => {
                assert(a * 16 + d >= 0) by (nonlinear_arith)
                    requires
                        a >= 0,
                        d >= 0,
                ;
                lemma_hex_fold_nonneg(s.drop_first(), a * 16 + d);
            },
            None => {},
        }
    }
}

/// A decimal fold from a non-negative accumulator stays non-negative.
proof fn lemma_dec_fold_nonneg(s: Seq<char>, a: int)
    requires
        a >= 0,
        spec_dec_fold(s, a) is Some,
    ensures
        spec_dec_fold(s, a)->Some_0 >= 0,
    decreases s.len(),
{
    if s.len() == 0 {
    } else {
        let u = s[0] as u32;
        if 0x30 <= u <= 0x39 {
            assert(a * 10 + (u - 0x30) >= 0) by (nonlinear_arith)
                requires
                    a >= 0,
                    u >= 0x30,
            ;
            lemma_dec_fold_nonneg(s.drop_first(), a * 10 + (u - 0x30));
        }
    }
}

/// The brace search lands on the first closing brace.
proof fn lemma_find_brace_at(s: Seq<char>, start: int, j: int)
    requires
        0 <= start <= j < s.len(),
        s[j] == '}',
        forall|x: int| start <= x < j ==> s[x] != '}',
    ensures
        spec_find_brace(s, start) == Some(j),
    decreases j - start,
{
    if start == j {
    } else {
        lemma_find_brace_at(s, start + 1, j);
    }
}

/// The brace search misses when no closing brace remains.
proof fn lemma_find_brace_none(s: Seq<char>, start: int)
    requires
        0 <= start,
        forall|x: int| start <= x < s.len() ==> s[x] != '}',
    ensures
        spec_find_brace(s, start) is None,
    decreases s.len() - start,
{
    if start < s.len() {
        lemma_find_brace_none(s, start + 1);
    }
}

/// Decode the escape unit starting at `i`.
fn unit_at(v: &Vec<char>, i: usize) -> (r: Option<(char, usize)>)
    requires
        i < v@.len(),
    ensures
        match spec_unit(v@.skip(i as int)) {
            Some((c, k)) => r matches Some(p) && p.0 == c && p.1 as int == k && 1 <= k && i + k
                <= v@.len(),
            None => r is None,
        },
{
    let ghost s = v@.skip(i as int);
    let n = v.len();
    let rem = n - i;
    let c0 = v[i];
    proof {
        assert(s[0] == v@[i as int]);
        assert(s.len() == n - i);
    }
    if c0 != '\\' {
        return Some((c0, 1));
    }
    if rem < 2 {
        return None;
    }
    let m = v[i + 1];
    proof {
        assert(s[1] == v@[i + 1 as int]);
    }
    if m == 'b' {
        Some(('\u{8}', 2))
    } else if m == 'f' {
        Some(('\u{c}', 2))
    } else if m == 'n' {
        Some(('\n', 2))
    } else if m == 'r' {
        Some(('\r', 2))
    } else if m == 't' {
        Some(('\t', 2))
    } else if m == 'v' {
        Some(('\u{b}', 2))
    } else if m == '\'' || m == '"' || m == '\\' || m == '/' {
        Some((m, 2))
    } else if m == 'u' {
        if rem < 3 {
            return None;
        }
        proof {
            assert(s[2] == v@[i + 2 as int]);
        }
        if v[i + 2] == '{' {
            // scan for the closing brace
            let mut j: usize = i + 3;
            #[verifier::loop_isolation(false)]
            while j < n && v[j] != '}'
                invariant
                    i + 3 <= j <= n,
                    forall|x: int| i + 3 <= x < j ==> v@[x] != '}',
                decreases n - j,
            {
                j += 1;
            }
            let (digits, consumed): (Vec<char>, usize) = if j < n {
                proof {
                    assert forall|x: int| 3 <= x < j - i implies s[x] != '}' by {
                        assert(s[x] == v@[x + i]);
                    }
                    assert(s[j - i] == v@[j as int]);
                    lemma_find_brace_at(s, 3, j - i);
                    assert(v.view().subrange(i + 3 as int, j as int) =~= s.subrange(
                        3,
                        j - i,
                    ));
                }
                (sub_chars(v, i + 3, j), j + 1 - i)
            } else {
                proof {
                    assert forall|x: int| 3 <= x < s.len() implies s[x] != '}' by {
                        assert(s[x] == v@[x + i]);
                    }
                    lemma_find_brace_none(s, 3);
                    assert(v.view().subrange(i + 3 as int, n as int) =~= s.subrange(
                        3,
                        s.len() as int,
                    ));
                }
                (sub_chars(v, i + 3, n), n - i)
            };
            let val = match parse_hex_chars(&digits) {
                Some(x) => x,
                None => {
                    return None;
                },
            };
            proof {
                if spec_parse_hex(digits@) is Some {
                    lemma_hex_fold_nonneg(digits@, 0);
                }
            }
            match char_from_u32(val) {
                Some(c) => {
                    proof {
                        vstd::utf8::char_u32_cast(c, val);
                    }
                    Some((c, consumed))
                },
                None => None,
            }
        } else {
            if rem < 6 {
                return None;
            }
            proof {
                assert(v.view().subrange(i + 2 as int, i + 6 as int) =~= s.subrange(2, 6));
            }
            let digits = sub_chars(v, i + 2, i + 6);
            let val = match parse_hex_chars(&digits) {
                Some(x) => x,
                None => {
                    return None;
                },
            };
            proof {
                if spec_parse_hex(digits@) is Some {
                    lemma_hex_fold_nonneg(digits@, 0);
                }
            }
            match char_from_u32(val) {
                Some(c) => {
                    proof {
                        vstd::utf8::char_u32_cast(c, val);
                    }
                    Some((c, 6))
                },
                None => {
                            None
                },
            }
        }
    } else if m == 'x' {
        if rem < 4 {
            return None;
        }
        proof {
            assert(v.view().subrange(i + 2 as int, i + 4 as int) =~= s.subrange(2, 4));
        }
        let digits = sub_chars(v, i + 2, i + 4);
        let val = match parse_hex_chars(&digits) {
            Some(x) => x,
            None => {
                return None;
            },
        };
        proof {
            if spec_parse_hex(digits@) is Some {
                lemma_hex_fold_nonneg(digits@, 0);
            }
        }
        if val <= 0xff {
            match char_from_u32(val) {
                Some(c) => {
                    proof {
                        vstd::utf8::char_u32_cast(c, val);
                    }
                    Some((c, 4))
                },
                None => {
                    proof {
                        assert(vstd::utf8::is_scalar(val));
                        assert(false);
                    }
                    None
                },
            }
        } else {
            None
        }
    } else {
        let mu = m as u32;
        if 0x30 <= mu && mu <= 0x37 {
            let long = mu <= 0x33;
            let e1 = rem > 2 && {
                let u2 = v[i + 2] as u32;
                0x30 <= u2 && u2 <= 0x37
            };
            let e2 = long && e1 && rem > 3 && {
                let u3 = v[i + 3] as u32;
                0x30 <= u3 && u3 <= 0x37
            };
            proof {
                if 2 < s.len() {
                    assert(s[2] == v@[i + 2 as int]);
                }
                if 3 < s.len() {
                    assert(s[3] == v@[i + 3 as int]);
                }
            }
            let val: u32 = if e2 {
                (m as u32 - 0x30) * 64 + (v[i + 2] as u32 - 0x30) * 8 + (v[i + 3] as u32 - 0x30)
            } else if e1 {
                (m as u32 - 0x30) * 8 + (v[i + 2] as u32 - 0x30)
            } else {
                m as u32 - 0x30
            };
            let cnt: usize = if e2 {
                2
            } else if e1 {
                1
            } else {
                0
            };
            proof {
                let ghost_cnt: int = cnt as int;
                assert(s.subrange(1, 2 + ghost_cnt) =~= v.view().subrange(
                    i + 1 as int,
                    i + 2 + ghost_cnt,
                ));
                assert(val as int == spec_octal_value(s.subrange(1, 2 + ghost_cnt)));
                assert(val <= 255);
            }
            match char_from_u32(val) {
                Some(c) => {
                    proof {
                        vstd::utf8::char_u32_cast(c, val);
                    }
                    Some((c, 2 + cnt))
                },
                None => {
                    proof {
                        assert(vstd::utf8::is_scalar(val));
                        assert(false);
                    }
                    None
                },
            }
        } else {
            None
        }
    }
}

/// Decode a whole character string; `None` when any escape is malformed.
pub fn unescape_chars(v: &Vec<char>) -> (r: Option<Vec<char>>)
    ensures
        match spec_unescape(v@) {
            Some(out) => r matches Some(x) && x@ == out,
            None => r is None,
        },
{
    let n = v.len();
    let mut out: Vec<char> = Vec::new();
    let mut i: usize = 0;
    proof {
        assert(v@.skip(0) =~= v@);
    }
    #[verifier::loop_isolation(false)]
    while i < n
        invariant
            i <= n,
            n == v@.len(),
            match spec_unescape(v@.skip(i as int)) {
                Some(rest) => spec_unescape(v@) == Some(out@.add(rest)),
                None => spec_unescape(v@) is None,
            },
        decreases n - i,
    {
        let ghost si = v@.skip(i as int);
        match unit_at(v, i) {
            Some(p) => {
                let c = p.0;
                let k = p.1;
                let ghost out0 = out@;
                proof {
                    assert(si.skip(k as int) =~= v@.skip(i + k));
                }
                out.push(c);
                i += k;
                proof {
                    match spec_unescape(v@.skip(i as int)) {
                        Some(rest) => {
                            assert(spec_unescape(si) == Some(seq![c].add(rest)));
                            assert(out@.add(rest) =~= out0.add(seq![c].add(rest)));
                        },
                        None => {
                            assert(spec_unescape(si) is None);
                        },
                    }
                }
            },
            None => {
                return None;
            },
        }
    }
    proof {
        assert(v@.skip(n as int) =~= Seq::<char>::empty());
        assert(out@.add(Seq::<char>::empty()) =~= out@);
    }
    Some(out)
}

/// Decode a wire string back to the text it denotes.
pub fn unescape_str(s: &str) -> (r: Option<String>)
    ensures
        match spec_unescape(s@) {
            Some(out) => r matches Some(x) && x@ == out,
            None => r is None,
        },
{
    let cv = chars_of(s);
    match unescape_chars(&cv) {
        Some(x) => Some(string_from_chars(&x)),
        None => None,
    }
}

/// Each hex digit's value reads back.
proof fn lemma_hex_digit_val(d: int)
    requires
        0 <= d < 16,
    ensures
        spec_hex_val(spec_hex_digit(d)) == Some(d as u32),
{
}

/// Folding one more digit multiplies and adds.
proof fn lemma_hex_fold_push(s: Seq<char>, c: char, a: int)
    ensures
        spec_hex_fold(s.push(c), a) == match spec_hex_fold(s, a) {
            Some(x) => match spec_hex_val(c) {
                Some(d) => Some(x * 16 + d),
                None => None::<int>,
            },
            None => None::<int>,
        },
    decreases s.len(),
{
    if s.len() == 0 {
        assert(s.push(c).drop_first() =~= Seq::<char>::empty());
        assert(s.push(c)[0] == c);
        match spec_hex_val(c) {
            Some(d) => {
                assert(spec_hex_fold(s.push(c).drop_first(), a * 16 + d) == Some(a * 16 + d));
            },
            None => {},
        }
    } else {
        assert(s.push(c)[0] == s[0]);
        assert(s.push(c).drop_first() =~= s.drop_first().push(c));
        match spec_hex_val(s[0]) {
            Some(d0) => {
                lemma_hex_fold_push(s.drop_first(), c, a * 16 + d0);
            },
            None => {},
        }
    }
}

/// Printing then parsing a number in hex is the identity.
pub proof fn lemma_hex_round_trip(v: int)
    requires
        v >= 0,
    ensures
        spec_hex_seq(v).len() >= 1,
        spec_parse_hex(spec_hex_seq(v)) == Some(v),
    decreases v,
{
    if v < 16 {
        lemma_hex_digit_val(v);
        let s = spec_hex_seq(v);
        assert(s[0] == spec_hex_digit(v));
        assert(s.drop_first() =~= Seq::<char>::empty());
        assert(spec_hex_fold(s.drop_first(), 0 * 16 + (v as u32)) == Some(
            0 * 16 + (v as u32) as int,
        ));
        assert(spec_hex_fold(s, 0) == Some(v));
    } else {
        lemma_hex_round_trip(v / 16);
        lemma_hex_digit_val(v % 16);
        lemma_hex_fold_push(spec_hex_seq(v / 16), spec_hex_digit(v % 16), 0);
        assert(v / 16 * 16 + v % 16 == v) by (nonlinear_arith)
            requires
                v >= 0,
        ;
    }
}

/// Every character a hex print emits is a hex digit.
proof fn lemma_hex_seq_digits(v: int)
    requires
        v >= 0,
    ensures
        forall|j: int|
            0 <= j < spec_hex_seq(v).len() ==> spec_hex_val(#[trigger] spec_hex_seq(v)[j])
                is Some,
    decreases v,
{
    if v < 16 {
        lemma_hex_digit_val(v);
    } else {
        lemma_hex_seq_digits(v / 16);
        lemma_hex_digit_val(v % 16);
        assert forall|j: int|
            0 <= j < spec_hex_seq(v).len() implies spec_hex_val(
            #[trigger] spec_hex_seq(v)[j],
        ) is Some by {
            if j < spec_hex_seq(v / 16).len() {
                assert(spec_hex_seq(v)[j] == spec_hex_seq(v / 16)[j]);
            } else {
                assert(spec_hex_seq(v)[j] == spec_hex_digit(v % 16));
            }
        }
    }
}

/// A hex digit is not a closing brace.
proof fn lemma_hex_digit_not_brace(c: char)
    requires
        spec_hex_val(c) is Some,
    ensures
        c != '}',
{
}

/// The escape form of one character decodes back to it, whatever follows.
proof fn lemma_unit_of_escape_char(c: char, rest: Seq<char>)
    ensures
        spec_unit(spec_escape_char(c).add(rest)) == Some(
            (c, spec_escape_char(c).len() as int),
        ),
{
    let ec = spec_escape_char(c);
    let s = ec.add(rest);
    vstd::utf8::char_is_scalar(c);
    if c == '\t' || c == '\r' || c == '\n' || c == '\\' || c == '\'' || c == '"' {
        assert(s[0] == ec[0]);
        assert(s[1] == ec[1]);
        assert(s.len() >= 2);
    } else if 0x20 <= c as u32 <= 0x7e {
        assert(s[0] == c);
        assert(c != '\\');
    } else {
        let u = c as u32 as int;
        let hs = spec_hex_seq(u);
        lemma_hex_round_trip(u);
        lemma_hex_seq_digits(u);
        assert(ec.len() == 4 + hs.len());
        assert(s[0] == '\\');
        assert(s[1] == 'u');
        assert(s[2] == '{');
        assert(s.len() >= 3);
        let j = 3 + hs.len() as int;
        assert(s[j] == '}');
        assert forall|x: int| 3 <= x < j implies s[x] != '}' by {
            assert(s[x] == hs[x - 3]);
            lemma_hex_digit_not_brace(hs[x - 3]);
        }
        lemma_find_brace_at(s, 3, j);
        assert(s.subrange(3, j) =~= hs);
        assert(spec_parse_hex(hs) == Some(u));
        assert(0 <= u <= u32::MAX);
        assert(vstd::utf8::is_scalar(u as u32));
        vstd::utf8::char_u32_cast(c, c as u32);
        assert((u as u32) as char == c);
        assert(spec_unit_unicode(s) == Some((c, j + 1)));
        assert(j + 1 == ec.len());
    }
}

/// Decoding inverts encoding: the round trip over the wire is the identity.
pub proof fn lemma_unescape_escape(s: Seq<char>)
    ensures
        spec_unescape(spec_escape(s)) == Some(s),
    decreases s.len(),
{
    if s.len() == 0 {
        assert(spec_escape(s) == Seq::<char>::empty());
        assert(s =~= Seq::<char>::empty());
    } else {
        let ec = spec_escape_char(s[0]);
        let tail_enc = spec_escape(s.drop_first());
        let es = spec_escape(s);
        assert(es == ec.add(tail_enc));
        lemma_unit_of_escape_char(s[0], tail_enc);
        assert(ec.len() >= 1) by {
            if !(s[0] == '\t' || s[0] == '\r' || s[0] == '\n' || s[0] == '\\' || s[0] == '\''
                || s[0] == '"' || 0x20 <= s[0] as u32 <= 0x7e) {
                lemma_hex_round_trip(s[0] as u32 as int);
            }
        }
        assert(es.skip(ec.len() as int) =~= tail_enc);
        lemma_unescape_escape(s.drop_first());
        assert(spec_unescape(es) == Some(seq![s[0]].add(s.drop_first())));
        assert(seq![s[0]].add(s.drop_first()) =~= s);
    }
}

/// Folding one more decimal digit multiplies and adds.
proof fn lemma_dec_fold_push(s: Seq<char>, c: char, a: int)
    ensures
        spec_dec_fold(s.push(c), a) == ({
            let u = c as u32;
            match spec_dec_fold(s, a) {
                Some(x) => if 0x30 <= u <= 0x39 {
                    Some(x * 10 + (u - 0x30))
                } else {
                    None::<int>
                },
                None => None::<int>,
            }
        }),
    decreases s.len(),
{
    if s.len() == 0 {
        assert(s.push(c).drop_first() =~= Seq::<char>::empty());
        assert(s.push(c)[0] == c);
        let u = c as u32;
        if 0x30 <= u <= 0x39 {
            assert(spec_dec_fold(s.push(c).drop_first(), a * 10 + (u - 0x30)) == Some(
                a * 10 + (u - 0x30),
            ));
        }
    } else {
        assert(s.push(c)[0] == s[0]);
        assert(s.push(c).drop_first() =~= s.drop_first().push(c));
        let u0 = s[0] as u32;
        if 0x30 <= u0 <= 0x39 {
            lemma_dec_fold_push(s.drop_first(), c, a * 10 + (u0 - 0x30));
        }
    }
}

/// A decimal digit character's scalar value is its digit value plus 0x30.
proof fn lemma_dec_digit_code(d: int)
    requires
        0 <= d < 10,
    ensures
        crate::strings::spec_dec_digit(d) as u32 == 0x30 + d,
{
}

/// Printing then parsing a number in decimal is the identity.
pub proof fn lemma_dec_round_trip(v: int)
    requires
        v >= 0,
    ensures
        spec_dec_seq(v).len() >= 1,
        spec_parse_dec(spec_dec_seq(v)) == Some(v),
    decreases v,
{
    if v < 10 {
        lemma_dec_digit_code(v);
        let s = spec_dec_seq(v);
        assert(s[0] == crate::strings::spec_dec_digit(v));
        assert(s.drop_first() =~= Seq::<char>::empty());
        assert(spec_dec_fold(s.drop_first(), 0 * 10 + ((s[0] as u32) - 0x30)) == Some(
            0 * 10 + ((s[0] as u32) - 0x30) as int,
        ));
        assert(spec_dec_fold(s, 0) == Some(v));
    } else {
        lemma_dec_round_trip(v / 10);
        lemma_dec_digit_code(v % 10);
        lemma_dec_fold_push(spec_dec_seq(v / 10), crate::strings::spec_dec_digit(v % 10), 0);
        assert(v / 10 * 10 + v % 10 == v) by (nonlinear_arith)
            requires
                v >= 0,
        ;
    }
}

/// The error envelope carried on the wire: a numeric status code, a
/// message, and zero or more stack frames.
#[derive(Debug, PartialEq, Eq)]
pub struct ErrorInfoHeader {
    pub code: u32,
    pub msg: String,
    /// Stack trace of errors.
    pub stack_errors: Vec<String>,
}

/// The wire form of an envelope: the code in decimal, then the escaped
/// message, then each escaped frame.
pub open spec fn spec_encode_header(code: u32, msg: Seq<char>, stack: Seq<Seq<char>>) -> Seq<
    Seq<char>,
> {
    seq![spec_dec_seq(code as int), spec_escape(msg)].add(
        stack.map_values(|f: Seq<char>| spec_escape(f)),
    )
}

/// All frames decoded, or nothing if any fails.
pub open spec fn spec_unescape_all(vs: Seq<Seq<char>>) -> Option<Seq<Seq<char>>>
    decreases vs.len(),
{
    if vs.len() == 0 {
        Some(Seq::empty())
    } else {
        match (spec_unescape(vs[0]), spec_unescape_all(vs.drop_first())) {
            (Some(f), Some(rest)) => Some(seq![f].add(rest)),
            _ => None,
        }
    }
}

/// The envelope a wire value list denotes: at least a code and a message,
/// the code a decimal `u32`, every field well escaped.
pub open spec fn spec_decode_header(values: Seq<Seq<char>>) -> Option<
    (u32, Seq<char>, Seq<Seq<char>>),
> {
    if values.len() < 2 {
        None
    } else {
        match spec_parse_dec(values[0]) {
            Some(x) => {
                if x <= u32::MAX {
                    match (spec_unescape(values[1]), spec_unescape_all(values.skip(2))) {
                        (Some(m), Some(st)) => Some((x as u32, m, st)),
                        _ => None,
                    }
                } else {
                    None
                }
            },
            None => None,
        }
    }
}

impl ErrorInfoHeader {
    pub fn new(code: u32, msg: String, stack_errors: Vec<String>) -> (r: ErrorInfoHeader)
        ensures
            r.code == code,
            r.msg@ == msg@,
            r.stack_errors.deep_view() == stack_errors.deep_view(),
    {
        ErrorInfoHeader { code, msg, stack_errors }
    }

    /// Write the envelope as the ordered list of wire values.
    pub fn encode(&self) -> (r: Vec<String>)
        ensures
            r.deep_view() =~~= spec_encode_header(
                self.code,
                self.msg@,
                self.stack_errors.deep_view(),
            ),
    {
        let mut out: Vec<String> = Vec::new();
        let mut digits: Vec<char> = Vec::new();
        push_dec(&mut digits, self.code as u64);
        out.push(string_from_chars(&digits));
        out.push(escape_str(self.msg.as_str()));
        proof {
            assert(digits@ =~= spec_dec_seq(self.code as int));
            assert(out.deep_view() =~~= seq![
                spec_dec_seq(self.code as int),
                spec_escape(self.msg@),
            ]);
            assert(self.stack_errors.deep_view().take(0).map_values(
                |f: Seq<char>| spec_escape(f),
            ) =~= Seq::<Seq<char>>::empty());
            assert(out.deep_view() =~~= seq![
                spec_dec_seq(self.code as int),
                spec_escape(self.msg@),
            ].add(
                self.stack_errors.deep_view().take(0).map_values(|f: Seq<char>| spec_escape(f)),
            ));
        }
        let n = self.stack_errors.len();
        let mut i: usize = 0;
        while i < n
            invariant
                n == self.stack_errors@.len(),
                i <= n,
                out.deep_view() =~~= seq![
                    spec_dec_seq(self.code as int),
                    spec_escape(self.msg@),
                ].add(
                    self.stack_errors.deep_view().take(i as int).map_values(
                        |f: Seq<char>| spec_escape(f),
                    ),
                ),
            decreases n - i,
        {
            let ghost out0 = out.deep_view();
            out.push(escape_str(self.stack_errors[i].as_str()));
            proof {
                assert(self.stack_errors.deep_view()[i as int] == self.stack_errors@[i as int]@);
                assert(out.deep_view() =~= out0.push(
                    spec_escape(self.stack_errors.deep_view()[i as int]),
                ));
                assert(self.stack_errors.deep_view().take(i + 1 as int).map_values(
                    |f: Seq<char>| spec_escape(f),
                ) =~= self.stack_errors.deep_view().take(i as int).map_values(
                    |f: Seq<char>| spec_escape(f),
                ).push(spec_escape(self.stack_errors.deep_view()[i as int])));
                assert(out.deep_view() =~~= seq![
                    spec_dec_seq(self.code as int),
                    spec_escape(self.msg@),
                ].add(
                    self.stack_errors.deep_view().take(i + 1 as int).map_values(
                        |f: Seq<char>| spec_escape(f),
                    ),
                ));
            }
            i += 1;
        }
        proof {
            assert(self.stack_errors.deep_view().take(n as int) =~= self.stack_errors.deep_view());
        }
        out
    }

    /// Read an envelope back from the ordered list of wire values; a short
    /// list, a bad code or a malformed escape yields nothing.
    pub fn decode(values: &Vec<String>) -> (r: Option<ErrorInfoHeader>)
        ensures
            match spec_decode_header(values.deep_view()) {
                Some((code, msg, stack)) => r matches Some(h) && h.code == code && h.msg@ == msg
                    && h.stack_errors.deep_view() == stack,
                None => r is None,
            },
    {
        let ghost dv = values.deep_view();
        let n = values.len();
        if n < 2 {
            return None;
        }
        let code_chars = chars_of(values[0].as_str());
        let code = match parse_dec_chars(&code_chars) {
            Some(c) => c,
            None => {
                return None;
            },
        };
        let msg = match unescape_str(values[1].as_str()) {
            Some(m) => m,
            None => {
                return None;
            },
        };
        let mut stack: Vec<String> = Vec::new();
        let mut i: usize = 2;
        proof {
            assert(dv.skip(2).skip(0) =~= dv.skip(2));
        }
        #[verifier::loop_isolation(false)]
        while i < n
            invariant
                2 <= i <= n,
                n == dv.len(),
                values.deep_view() == dv,
                match spec_unescape_all(dv.skip(i as int)) {
                    Some(rest) => spec_unescape_all(dv.skip(2)) == Some(
                        stack.deep_view().add(rest),
                    ),
                    None => spec_unescape_all(dv.skip(2)) is None,
                },
            decreases n - i,
        {
            let ghost si = dv.skip(i as int);
            proof {
                assert(si[0] == dv[i as int]);
                assert(si.drop_first() =~= dv.skip(i + 1 as int));
            }
            let ghost stack0 = stack.deep_view();
            match unescape_str(values[i].as_str()) {
                Some(f) => {
                    stack.push(f);
                    proof {
                        match spec_unescape_all(dv.skip(i + 1 as int)) {
                            Some(rest) => {
                                assert(stack.deep_view().add(rest) =~= stack0.add(
                                    seq![spec_unescape(dv[i as int])->Some_0].add(rest),
                                ));
                            },
                            None => {},
                        }
                    }
                },
                None => {
                    return None;
                },
            }
            i += 1;
        }
        proof {
            assert(dv.skip(n as int) =~= Seq::<Seq<char>>::empty());
            assert(stack.deep_view().add(Seq::<Seq<char>>::empty()) =~= stack.deep_view());
        }
        Some(ErrorInfoHeader { code, msg, stack_errors: stack })
    }
}

impl Default for ErrorInfoHeader {
    /// An empty envelope with code zero.
    fn default() -> (r: Self)
        ensures
            r.code == 0,
            r.msg@ == Seq::<char>::empty(),
            r.stack_errors.deep_view() == Seq::<Seq<char>>::empty(),
    {
        let r = ErrorInfoHeader { code: 0, msg: String::new(), stack_errors: Vec::new() };
        proof {
            assert(r.stack_errors.deep_view() =~= Seq::<Seq<char>>::empty());
        }
        r
    }
}

/// Escaping then decoding every frame is the identity.
proof fn lemma_unescape_all_escape(stack: Seq<Seq<char>>)
    ensures
        spec_unescape_all(stack.map_values(|f: Seq<char>| spec_escape(f))) == Some(stack),
    decreases stack.len(),
{
    let mapped = stack.map_values(|f: Seq<char>| spec_escape(f));
    if stack.len() == 0 {
        assert(mapped =~= Seq::<Seq<char>>::empty());
    } else {
        lemma_unescape_escape(stack[0]);
        lemma_unescape_all_escape(stack.drop_first());
        assert(mapped[0] == spec_escape(stack[0]));
        assert(mapped.drop_first() =~= stack.drop_first().map_values(
            |f: Seq<char>| spec_escape(f),
        ));
        assert(seq![stack[0]].add(stack.drop_first()) =~= stack);
    }
}

/// Decoding inverts encoding for every envelope: the code, the message and
/// each stack frame come back unchanged.
pub proof fn lemma_header_round_trip(code: u32, msg: Seq<char>, stack: Seq<Seq<char>>)
    ensures
        spec_decode_header(spec_encode_header(code, msg, stack)) == Some((code, msg, stack)),
{
    let enc = spec_encode_header(code, msg, stack);
    lemma_dec_round_trip(code as int);
    lemma_unescape_escape(msg);
    lemma_unescape_all_escape(stack);
    assert(enc[0] == spec_dec_seq(code as int));
    assert(enc[1] == spec_escape(msg));
    assert(enc.skip(2) =~= stack.map_values(|f: Seq<char>| spec_escape(f)));
    assert(enc.len() >= 2);
}

/// An error that can report a status code, a one-line message and its
/// stack of frames; the crate's consumers implement it for their errors.
pub trait ErrorExt {
    /// The status code the error maps to.
    spec fn spec_status_code(&self) -> StatusCode;

    /// The user-visible message.
    spec fn spec_output_msg(&self) -> Seq<char>;

    /// The stack frames `debug_fmt` appends.
    spec fn spec_frames(&self) -> Seq<Seq<char>>;

    fn status_code(&self) -> (r: StatusCode)
        ensures
            r == self.spec_status_code(),
    ;

    fn output_msg(&self) -> (r: String)
        ensures
            r@ == self.spec_output_msg(),
    ;

    /// Append this error's frames to the buffer; `layer` numbers the frame
    /// for display and does not change what is appended here.
    fn debug_fmt(&self, layer: usize, buf: &mut Vec<String>)
        ensures
            final(buf).deep_view() == old(buf).deep_view().add(self.spec_frames()),
    ;
}

/// The flattened frame list of an error.
pub fn from_stacked_errors_to_list<E: ErrorExt>(err: &E) -> (r: Vec<String>)
    ensures
        r.deep_view() == err.spec_frames(),
{
    let mut buf: Vec<String> = Vec::new();
    proof {
        assert(buf.deep_view() =~= Seq::<Seq<char>>::empty());
    }
    err.debug_fmt(0, &mut buf);
    proof {
        assert(Seq::<Seq<char>>::empty().add(err.spec_frames()) =~= err.spec_frames());
    }
    buf
}

/// An error stack received from a remote peer, kept human-readable so it
/// can ride in a header.
#[derive(Debug, PartialEq, Eq)]
pub struct RemoteStackError {
    pub code: StatusCode,
    pub msg: String,
    pub stack_error: Vec<String>,
}

impl RemoteStackError {
    pub fn new(code: StatusCode, msg: String, stack_error: Vec<String>) -> (r: RemoteStackError)
        ensures
            r.code == code,
            r.msg@ == msg@,
            r.stack_error.deep_view() == stack_error.deep_view(),
    {
        RemoteStackError { code, msg, stack_error }
    }

    /// Capture a local error's code, message and frames for forwarding.
    pub fn from_stack_error<E: ErrorExt>(err: &E) -> (r: RemoteStackError)
        ensures
            r.code == err.spec_status_code(),
            r.msg@ == err.spec_output_msg(),
            r.stack_error.deep_view() == err.spec_frames(),
    {
        let code = err.status_code();
        let msg = err.output_msg();
        let buf = from_stacked_errors_to_list(err);
        RemoteStackError { code, msg, stack_error: buf }
    }
}

impl ErrorExt for RemoteStackError {
    open spec fn spec_status_code(&self) -> StatusCode {
        self.code
    }

    open spec fn spec_output_msg(&self) -> Seq<char> {
        self.msg@
    }

    /// One leading frame naming the remote origin, then the carried frames.
    open spec fn spec_frames(&self) -> Seq<Seq<char>> {
        seq!["RemoteStackError: "@.add(self.msg@)].add(self.stack_error.deep_view())
    }

    fn status_code(&self) -> (r: StatusCode) {
        self.code
    }

    fn output_msg(&self) -> (r: String) {
        crate::strings::dup_string(&self.msg)
    }

    fn debug_fmt(&self, layer: usize, buf: &mut Vec<String>) {
        let ghost buf0 = buf.deep_view();
        buf.push(crate::strings::concat_str("RemoteStackError: ", self.msg.as_str()));
        proof {
            assert(buf.deep_view() =~= buf0.push("RemoteStackError: "@.add(self.msg@)));
        }
        let n = self.stack_error.len();
        let mut i: usize = 0;
        #[verifier::loop_isolation(false)]
        while i < n
            invariant
                n == self.stack_error@.len(),
                i <= n,
                buf.deep_view() =~= buf0.push("RemoteStackError: "@.add(self.msg@)).add(
                    self.stack_error.deep_view().take(i as int),
                ),
            decreases n - i,
        {
            let ghost b0 = buf.deep_view();
            buf.push(crate::strings::dup_string(&self.stack_error[i]));
            proof {
                assert(buf.deep_view() =~= b0.push(self.stack_error.deep_view()[i as int]));
                assert(self.stack_error.deep_view().take(i + 1 as int) =~= self.stack_error.deep_view().take(i as int).push(
                    self.stack_error.deep_view()[i as int],
                ));
            }
            i += 1;
        }
        proof {
            assert(self.stack_error.deep_view().take(n as int) =~= self.stack_error.deep_view());
            assert(buf.deep_view() =~= buf0.add(self.spec_frames()));
        }
    }
}

impl ErrorInfoHeader {
    /// The envelope for a local error: its code's numeric value, its
    /// message, and its frames.
    pub fn from_error<E: ErrorExt>(error: &E) -> (r: ErrorInfoHeader)
        ensures
            r.code == error.spec_status_code().spec_as_u32(),
            r.msg@ == error.spec_output_msg(),
            r.stack_errors.deep_view() == error.spec_frames(),
    {
        let code = error.status_code().as_u32();
        let msg = error.output_msg();
        let stack_errors = from_stacked_errors_to_list(error);
        ErrorInfoHeader { code, msg, stack_errors }
    }
}

} // verus!
