//! Decimal text: parsing a `u64` from its decimal spelling, rendering a
//! `u64` as decimal digits, and a small trusted helper for growing strings.

use vstd::prelude::*;

verus! {

/// Relies on String::push: appends the given character to the end of the string.
#[verifier::external_body]
pub(crate) fn push_char(s: &mut String, c: char)
    ensures
        final(s)@ == old(s)@.push(c),
{
    s.push(c);
}

/// An ASCII decimal digit, `'0'` through `'9'`.
pub open spec fn is_ascii_digit(c: char) -> bool {
    48 <= c as int && c as int <= 57
}

/// The numeric value of one digit character.
pub open spec fn digit_val(c: char) -> int {
    c as int - 48
}

/// The digit character for a value in `0..10`.
pub open spec fn digit_char(d: int) -> char {
    ((48 + d) as u8) as char
}

pub open spec fn all_digits(s: Seq<char>) -> bool {
    forall|i: int| 0 <= i < s.len() ==> is_ascii_digit(s[i])
}

/// The numeric value of a run of digit characters, most significant first.
pub open spec fn dec_value(s: Seq<char>) -> int
    decreases s.len(),
{
    if s.len() == 0 {
        0
    } else {
        dec_value(s.drop_last()) * 10 + digit_val(s.last())
    }
}

/// The decimal spelling of `n`: no sign, no leading zeros except for `"0"`.
pub open spec fn dec_str(n: nat) -> Seq<char>
    decreases n,
{
    if n < 10 {
        seq![digit_char(n as int)]
    } else {
        dec_str(n / 10).push(digit_char((n % 10) as int))
    }
}

/// What a bare digit run parses to: one or more digits whose value fits in
/// a `u64`.
pub open spec fn spec_parse_digits(s: Seq<char>) -> Option<int> {
    if s.len() > 0 && all_digits(s) && dec_value(s) <= u64::MAX {
        Some(dec_value(s))
    } else {
        None
    }
}

/// What `u64` parsing accepts: an optional leading `+`, then one or more
/// digits whose value fits in a `u64`; the canonical textual rule for
/// unsigned integers.
pub open spec fn spec_parse_u64(s: Seq<char>) -> Option<int> {
    if s.len() > 0 && s[0] == '+' {
        spec_parse_digits(s.drop_first())
    } else {
        spec_parse_digits(s)
    }
}

pub proof fn lemma_dec_value_nonneg(s: Seq<char>)
    requires
        all_digits(s),
    ensures
        dec_value(s) >= 0,
    decreases s.len(),
{
    if s.len() > 0 {
        assert(forall|i: int| 0 <= i < s.drop_last().len() ==> s.drop_last()[i] == s[i]);
        lemma_dec_value_nonneg(s.drop_last());
    }
}

/// The value of a digit run only grows as more digits are appended.
pub proof fn lemma_dec_value_prefix_le(s: Seq<char>, j: int)
    requires
        0 <= j <= s.len(),
        all_digits(s),
    ensures
        dec_value(s.take(j)) <= dec_value(s),
    decreases s.len() - j,
{
    if j < s.len() {
        assert(s.take(j + 1).drop_last() =~= s.take(j));
        assert(s.take(j + 1).last() == s[j]);
        assert(forall|i: int| 0 <= i < s.take(j).len() ==> s.take(j)[i] == s[i]);
        lemma_dec_value_nonneg(s.take(j));
        assert(dec_value(s.take(j + 1)) >= dec_value(s.take(j)));
        lemma_dec_value_prefix_le(s, j + 1);
    } else {
        assert(s.take(j) =~= s);
    }
}

/// The error returned when a token is not the decimal spelling of a value
/// of the requested numeric type.
#[derive(Clone, Copy, Debug, PartialEq, Eq, Structural)]
pub struct ParseNumberError;

/// Parse a bare run of one or more digits; fails on any other character
/// and on values over `u64::MAX`.
pub fn parse_digits(s: &str) -> (r: Result<u64, ParseNumberError>)
    ensures
        match r {
            Ok(v) => spec_parse_digits(s@) == Some(v as int),
            Err(e) => spec_parse_digits(s@) is None,
        },
{
    let n = s.unicode_len();
    if n == 0 {
        return Err(ParseNumberError);
    }
    let mut v: u64 = 0;
    let mut j: usize = 0;
    while j < n
        invariant
            j <= n,
            n == s@.len(),
            all_digits(s@.take(j as int)),
            v as int == dec_value(s@.take(j as int)),
        decreases n - j,
    {
        let c = s.get_char(j);
        let u = c as u32;
        if u < 48 || u > 57 {
            proof {
                assert(!is_ascii_digit(s@[j as int]));
            }
            return Err(ParseNumberError);
        }
        let d = (u - 48) as u64;
        proof {
            assert(s@.take(j + 1).drop_last() =~= s@.take(j as int));
            assert(s@.take(j + 1).last() == s@[j as int]);
            assert(dec_value(s@.take(j + 1)) == dec_value(s@.take(j as int)) * 10 + digit_val(
                s@[j as int],
            ));
            assert(dec_value(s@.take(j + 1)) == v as int * 10 + d as int);
        }
        match v.checked_mul(10) {
            Some(x) => match x.checked_add(d) {
                Some(y) => {
                    v = y;
                },
                None => {
                    proof {
                        if all_digits(s@) {
                            lemma_dec_value_prefix_le(s@, j + 1);
                            assert(dec_value(s@) > u64::MAX);
                        }
                    }
                    return Err(ParseNumberError);
                },
            },
            None => {
                proof {
                    if all_digits(s@) {
                        lemma_dec_value_prefix_le(s@, j + 1);
                        assert(dec_value(s@) > u64::MAX);
                    }
                }
                return Err(ParseNumberError);
            },
        }
        j = j + 1;
    }
    proof {
        assert(s@.take(n as int) =~= s@);
    }
    Ok(v)
}

/// Parse the decimal spelling of a `u64`: an optional leading `+`, then one
/// or more digits; fails on any other character and on values over
/// `u64::MAX`.
pub fn parse_u64(s: &str) -> (r: Result<u64, ParseNumberError>)
    ensures
        match r {
            Ok(v) => spec_parse_u64(s@) == Some(v as int),
            Err(e) => spec_parse_u64(s@) is None,
        },
{
    let n = s.unicode_len();
    if n > 0 && s.get_char(0) == '+' {
        let digits = s.substring_char(1, n);
        proof {
            assert(digits@ =~= s@.drop_first());
        }
        parse_digits(digits)
    } else {
        parse_digits(s)
    }
}

/// Render `n` in decimal.
pub fn u64_to_string(n: u64) -> (r: String)
    ensures
        r@ == dec_str(n as nat),
{
    if n == 0 {
        let r = String::from_str("0");
        proof {
            reveal_strlit("0");
            assert(r@ =~= dec_str(0));
        }
        return r;
    }
    let mut buf: Vec<char> = Vec::new();
    let mut m = n;
    while m > 0
        invariant
            m > 0 ==> dec_str(n as nat) == dec_str(m as nat) + buf@.reverse(),
            m == 0 ==> dec_str(n as nat) == buf@.reverse(),
        decreases m,
    {
        let d = m % 10;
        let ch = (48 + d as u8) as char;
        proof {
            assert(ch == digit_char(d as int));
            assert((buf@.push(ch)).reverse() =~= seq![ch] + buf@.reverse());
            if m >= 10 {
                assert(dec_str(m as nat) + buf@.reverse() =~= dec_str(m as nat / 10) + (seq![
                    ch,
                ] + buf@.reverse()));
            } else {
                assert(dec_str(m as nat) + buf@.reverse() =~= seq![ch] + buf@.reverse());
            }
        }
        buf.push(ch);
        m = m / 10;
    }
    let mut out = String::new();
    let mut k = buf.len();
    while k > 0
        invariant
            k <= buf.len(),
            out@ == buf@.reverse().take(buf@.len() - k),
        decreases k,
    {
        k = k - 1;
        push_char(&mut out, buf[k]);
        proof {
            assert(out@ =~= buf@.reverse().take(buf@.len() - k));
        }
    }
    proof {
        assert(buf@.reverse().take(buf@.len() as int) =~= buf@.reverse());
    }
    out
}

} // verus!
