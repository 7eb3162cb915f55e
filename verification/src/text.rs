//! Character-level text utilities: string/character conversions and
//! decimal parsing and formatting for 16-bit port numbers.

use vstd::prelude::*;
use vstd::string::StrSliceExecFns;
use vstd::string::StringExecFns;

verus! {

/// A decimal digit character.
pub open spec fn is_digit(c: char) -> bool {
    48 <= c as u32 && c as u32 <= 57
}

/// Numeric value of a decimal digit character.
pub open spec fn digit_val(c: char) -> nat
    recommends
        is_digit(c),
{
    (c as u32 - 48) as nat
}

/// Every character of `s` is a decimal digit.
pub open spec fn all_digits(s: Seq<char>) -> bool {
    forall|i: int| 0 <= i < s.len() ==> is_digit(s[i])
}

/// Value of a sequence of decimal digit characters, most significant first.
pub open spec fn dec_value(s: Seq<char>) -> nat
    decreases s.len(),
{
    if s.len() == 0 {
        0
    } else {
        dec_value(s.drop_last()) * 10 + digit_val(s.last())
    }
}

/// The digit part of a decimal token: everything after an optional
/// leading `+` sign, as `str::parse::<u16>` accepts it.
pub open spec fn dec_token_digits(s: Seq<char>) -> Seq<char> {
    if s.len() > 0 && s[0] == '+' {
        s.drop_first()
    } else {
        s
    }
}

/// `s` parses as an unsigned 16-bit decimal number: an optional leading
/// `+`, then at least one digit, with a value of at most 65535.
pub open spec fn is_u16_seq(s: Seq<char>) -> bool {
    let d = dec_token_digits(s);
    d.len() > 0 && all_digits(d) && dec_value(d) <= 65535
}

/// The parsed value of a valid unsigned 16-bit decimal token.
pub open spec fn u16_seq_value(s: Seq<char>) -> nat
    recommends
        is_u16_seq(s),
{
    dec_value(dec_token_digits(s))
}

/// The character for a decimal digit value.
pub open spec fn digit_char(d: nat) -> char
    recommends
        d < 10,
{
    if d == 0 { '0' }
    else if d == 1 { '1' }
    else if d == 2 { '2' }
    else if d == 3 { '3' }
    else if d == 4 { '4' }
    else if d == 5 { '5' }
    else if d == 6 { '6' }
    else if d == 7 { '7' }
    else if d == 8 { '8' }
    else { '9' }
}

/// Decimal representation of `n`, without leading zeros.
pub open spec fn dec_digits(n: nat) -> Seq<char>
    decreases n,
{
    if n < 10 {
        seq![digit_char(n)]
    } else {
        dec_digits(n / 10).push(digit_char(n % 10))
    }
}

/// Dropping trailing digits cannot increase the value of a digit string.
proof fn lemma_dec_value_take_le(s: Seq<char>, k: int)
    requires
        all_digits(s),
        0 <= k <= s.len(),
    ensures
        dec_value(s.take(k)) <= dec_value(s),
    decreases s.len() - k,
{
    if k < s.len() {
        assert(s.take(k + 1).drop_last() =~= s.take(k));
        assert(s.take(k + 1).last() == s[k]);
        assert(dec_value(s.take(k + 1)) == dec_value(s.take(k)) * 10 + digit_val(s[k]));
        assert(dec_value(s.take(k)) * 10 >= dec_value(s.take(k))) by {
            assert(dec_value(s.take(k)) * 10 == dec_value(s.take(k)) * 9 + dec_value(s.take(k)));
        }
        lemma_dec_value_take_le(s, k + 1);
    } else {
        assert(s.take(k) =~= s);
    }
}

/// ASCII lowercase of one character: `A` through `Z` fold, everything
/// else stands as itself.
pub open spec fn lower_char(c: char) -> char {
    if 65 <= c as u32 && c as u32 <= 90 {
        ((c as u32 + 32) as u8) as char
    } else {
        c
    }
}

/// ASCII lowercase of a character sequence.
pub open spec fn ascii_lower(s: Seq<char>) -> Seq<char> {
    s.map_values(|c: char| lower_char(c))
}

/// ASCII-lowercases a string slice.
pub fn to_ascii_lower(s: &str) -> (r: String)
    ensures
        r@ == ascii_lower(s@),
{
    let chars = str_chars(s);
    let n = chars.len();
    let mut out: Vec<char> = Vec::new();
    let mut i: usize = 0;
    while i < n
        invariant
            n == s@.len(),
            chars@ == s@,
            i <= n,
            out@.len() == i,
            forall|j: int| 0 <= j < i ==> out@[j] == lower_char(s@[j]),
        decreases n - i,
    {
        let c = chars[i];
        let cv = c as u32;
        if 65 <= cv && cv <= 90 {
            out.push(((cv + 32) as u8) as char);
        } else {
            out.push(c);
        }
        i = i + 1;
    }
    proof {
        assert(out@ =~= ascii_lower(s@));
    }
    chars_to_string(&out)
}

/// Equality of two string slices, stated over their character views.
pub fn str_eq(a: &str, b: &str) -> (r: bool)
    ensures
        r == (a@ == b@),
{
    let sa = String::from_str(a);
    let sb = String::from_str(b);
    sa == sb
}

/// The characters of a string slice, in order.
pub fn str_chars(s: &str) -> (v: Vec<char>)
    ensures
        v@ == s@,
{
    let n = s.unicode_len();
    let mut v: Vec<char> = Vec::new();
    let mut i: usize = 0;
    while i < n
        invariant
            n == s@.len(),
            i <= n,
            v@ == s@.take(i as int),
        decreases n - i,
    {
        let c = s.get_char(i);
        v.push(c);
        proof {
            assert(s@.take(i + 1) =~= s@.take(i as int).push(s@[i as int]));
        }
        i = i + 1;
    }
    proof {
        assert(s@.take(n as int) =~= s@);
    }
    v
}

/// Relies on `String: FromIterator<char>` (`Iterator::collect`): the
/// collected string holds exactly the characters of `v`, in order.
#[verifier::external_body]
pub fn chars_to_string(v: &Vec<char>) -> (s: String)
    ensures
        s@ == v@,
{
    v.iter().collect()
}

/// The character for a decimal digit value.
pub fn digit_to_char(d: u16) -> (c: char)
    requires
        d < 10,
    ensures
        c == digit_char(d as nat),
{
    if d == 0 { '0' }
    else if d == 1 { '1' }
    else if d == 2 { '2' }
    else if d == 3 { '3' }
    else if d == 4 { '4' }
    else if d == 5 { '5' }
    else if d == 6 { '6' }
    else if d == 7 { '7' }
    else if d == 8 { '8' }
    else { '9' }
}

/// Appends the decimal representation of `n` to `v`.
pub fn push_dec_digits(n: u16, v: &mut Vec<char>)
    ensures
        final(v)@ == old(v)@ + dec_digits(n as nat),
    decreases n,
{
    if n < 10 {
        v.push(digit_to_char(n));
        proof {
            assert(final(v)@ =~= old(v)@ + dec_digits(n as nat));
        }
    } else {
        push_dec_digits(n / 10, v);
        v.push(digit_to_char(n % 10));
        proof {
            assert(final(v)@ =~= old(v)@ + dec_digits(n as nat));
        }
    }
}

/// The decimal representation of `n`, as characters.
pub fn u16_to_chars(n: u16) -> (v: Vec<char>)
    ensures
        v@ == dec_digits(n as nat),
{
    let mut v: Vec<char> = Vec::new();
    push_dec_digits(n, &mut v);
    proof {
        assert(v@ =~= dec_digits(n as nat));
    }
    v
}

/// The decimal representation of `n`, as a string.
pub fn u16_to_string(n: u16) -> (s: String)
    ensures
        s@ == dec_digits(n as nat),
{
    let v = u16_to_chars(n);
    chars_to_string(&v)
}

/// Parses `s` as an unsigned 16-bit decimal number, accepting exactly
/// the tokens `str::parse::<u16>` accepts: an optional leading `+`,
/// then one or more decimal digits, value at most 65535.
pub fn parse_u16(s: &str) -> (r: Option<u16>)
    ensures
        r is Some <==> is_u16_seq(s@),
        r matches Some(v) ==> v as nat == u16_seq_value(s@),
{
    let chars = str_chars(s);
    let n = chars.len();
    let start: usize = if n > 0 && chars[0] == '+' { 1 } else { 0 };
    let ghost d = dec_token_digits(s@);
    proof {
        assert(d =~= s@.skip(start as int));
    }
    if start >= n {
        return None;
    }
    let mut acc: u32 = 0;
    let mut i: usize = start;
    while i < n
        invariant
            start <= i <= n,
            n == s@.len(),
            chars@ == s@,
            d == s@.skip(start as int),
            d == dec_token_digits(s@),
            acc <= 65535,
            all_digits(d.take(i - start)),
            acc as nat == dec_value(d.take(i - start)),
        decreases n - i,
    {
        let c = chars[i];
        let cv = c as u32;
        if cv < 48 || cv > 57 {
            proof {
                assert(s@.skip(start as int)[i - start] == s@[i as int]);
                assert(!is_digit(d[i - start]));
                assert(!all_digits(d));
                assert(!is_u16_seq(s@));
            }
            return None;
        }
        let dv: u32 = cv - 48;
        proof {
            assert(d.take(i - start + 1).drop_last() =~= d.take(i - start));
            assert(d.take(i - start + 1).last() == d[i - start]);
        }
        let next: u32 = acc * 10 + dv;
        if next > 65535 {
            proof {
                assert(all_digits(d.take(i - start + 1)));
                assert(dec_value(d.take(i - start + 1)) > 65535);
                if all_digits(d) {
                    lemma_dec_value_take_le(d, i - start + 1);
                    assert(dec_value(d) > 65535);
                }
                assert(!is_u16_seq(s@));
            }
            return None;
        }
        acc = next;
        i = i + 1;
    }
    proof {
        assert(d.take(n - start) =~= d);
    }
    Some(acc as u16)
}

} // verus!
