//! Unsigned decimal numbers as text: an optional `+`, then one or more ASCII
//! digits, with a value that fits the target type.
use vstd::prelude::*;

verus! {

/// Whether `c` is one of `0` to `9`.
pub open spec fn spec_is_digit(c: char) -> bool {
    '0' <= c && c <= '9'
}

/// The value of the digit `c`; 0 for any other character.
pub open spec fn spec_digit_value(c: char) -> nat {
    if spec_is_digit(c) {
        (c as u8 - 48) as nat
    } else {
        0
    }
}

/// Whether `s` holds digits only.
pub open spec fn spec_all_digits(s: Seq<char>) -> bool {
    forall|i: int| 0 <= i < s.len() ==> spec_is_digit(#[trigger] s[i])
}

/// The number that the digits of `s` write in base ten; 0 for the empty text.
pub open spec fn spec_digits_value(s: Seq<char>) -> nat
    decreases s.len(),
{
    if s.len() == 0 {
        0
    } else {
        spec_digits_value(s.drop_last()) * 10 + spec_digit_value(s.last())
    }
}

/// The number written by `s`, if `s` is one or more digits and nothing else,
/// and the number is at most `max`.
pub open spec fn spec_parse_digits(s: Seq<char>, max: nat) -> Option<nat> {
    if s.len() > 0 && spec_all_digits(s) && spec_digits_value(s) <= max {
        Some(spec_digits_value(s))
    } else {
        None
    }
}

/// `s` without one leading `+`, if it has one.
pub open spec fn spec_unsigned_body(s: Seq<char>) -> Seq<char> {
    if s.len() > 0 && s[0] == '+' {
        s.drop_first()
    } else {
        s
    }
}

/// The number written by `s`, if `s` is an optional `+` followed by at least
/// one digit and nothing else, and the number is at most `max`.
pub open spec fn spec_parse_unsigned(s: Seq<char>, max: nat) -> Option<nat> {
    spec_parse_digits(spec_unsigned_body(s), max)
}

/// A found number as a `u64`.
pub open spec fn spec_as_u64(n: Option<nat>) -> Option<u64> {
    match n {
        Some(n) => Some(n as u64),
        None => None,
    }
}

/// A found number as a `u32`.
pub open spec fn spec_as_u32(n: Option<nat>) -> Option<u32> {
    match n {
        Some(n) => Some(n as u32),
        None => None,
    }
}

/// The `u64` written by `s`, with an optional `+` before the digits.
pub open spec fn spec_parse_u64(s: Seq<char>) -> Option<u64> {
    spec_as_u64(spec_parse_unsigned(s, u64::MAX as nat))
}

/// The `u32` written by `s`, with an optional `+` before the digits.
pub open spec fn spec_parse_u32(s: Seq<char>) -> Option<u32> {
    spec_as_u32(spec_parse_unsigned(s, u32::MAX as nat))
}

/// The `u32` written by `s` in digits alone.
pub open spec fn spec_parse_digits_u32(s: Seq<char>) -> Option<u32> {
    spec_as_u32(spec_parse_digits(s, u32::MAX as nat))
}

/// A longer run of digits never writes a smaller number than its beginning.
pub proof fn lemma_digits_value_grows(s: Seq<char>, k: int)
    requires
        0 <= k <= s.len(),
    ensures
        spec_digits_value(s.take(k)) <= spec_digits_value(s),
    decreases s.len(),
{
    if k == s.len() {
        assert(s.take(k) == s);
    } else {
        lemma_digits_value_grows(s.drop_last(), k);
        assert(s.drop_last().take(k) == s.take(k));
    }
}

/// The character that writes the digit `d`.
pub open spec fn spec_digit_char(d: nat) -> char {
    ((48 + d) as u8) as char
}

/// `n` written in decimal, without leading zeros.
pub open spec fn spec_decimal(n: nat) -> Seq<char>
    decreases n,
{
    if n < 10 {
        seq![spec_digit_char(n)]
    } else {
        spec_decimal(n / 10).push(spec_digit_char(n % 10))
    }
}

/// A number written in decimal is a run of digits, at least one, that writes
/// the number.
pub proof fn lemma_decimal_reads_back(n: nat)
    ensures
        spec_decimal(n).len() > 0,
        spec_all_digits(spec_decimal(n)),
        spec_digits_value(spec_decimal(n)) == n,
    decreases n,
{
    let text = spec_decimal(n);
    if n < 10 {
        assert(text.drop_last() =~= Seq::<char>::empty());
        assert(spec_digits_value(text.drop_last()) == 0);
        assert(spec_digit_value(text.last()) == n);
    } else {
        lemma_decimal_reads_back(n / 10);
        assert(text.drop_last() =~= spec_decimal(n / 10));
        assert(spec_digit_value(text.last()) == n % 10);
        assert forall|i: int| 0 <= i < text.len() implies spec_is_digit(#[trigger] text[i]) by {
            if i < text.len() - 1 {
                assert(text[i] == spec_decimal(n / 10)[i]);
            }
        }
    }
}

/// Reading a `u32` from its decimal text gives the number back.
pub proof fn lemma_parse_decimal_u32(n: u32)
    ensures
        spec_parse_u32(spec_decimal(n as nat)) == Some(n),
        spec_parse_digits_u32(spec_decimal(n as nat)) == Some(n),
{
    lemma_decimal_reads_back(n as nat);
    let text = spec_decimal(n as nat);
    assert(spec_is_digit(text[0]));
    assert(spec_unsigned_body(text) == text);
}

/// Reading a `u64` from its decimal text gives the number back.
pub proof fn lemma_parse_decimal_u64(n: u64)
    ensures
        spec_parse_u64(spec_decimal(n as nat)) == Some(n),
{
    lemma_decimal_reads_back(n as nat);
    let text = spec_decimal(n as nat);
    assert(spec_is_digit(text[0]));
    assert(spec_unsigned_body(text) == text);
}

/// Tests whether `c` is one of `0` to `9`.
pub fn is_digit(c: char) -> (r: bool)
    ensures
        r == spec_is_digit(c),
{
    '0' <= c && c <= '9'
}

/// Reads the digits of `v` from index `start` on as a number no larger than `max`.
fn parse_digits_from(v: &Vec<char>, start: usize, max: u64) -> (r: Option<u64>)
    requires
        start <= v.len(),
        max >= 9,
    ensures
        r matches Some(n) ==> spec_parse_digits(v@.skip(start as int), max as nat) == Some(
            n as nat,
        ),
        r is None ==> spec_parse_digits(v@.skip(start as int), max as nat) is None,
{
    let ghost body = v@.skip(start as int);
    if start == v.len() {
        return None;
    }
    let mut acc: u64 = 0;
    let mut i: usize = start;
    while i < v.len()
        invariant
            start <= i <= v.len(),
            max >= 9,
            body == v@.skip(start as int),
            spec_all_digits(body.take(i - start)),
            acc as nat == spec_digits_value(body.take(i - start)),
            acc <= max,
        decreases v.len() - i,
    {
        let c = v[i];
        let ghost upto = body.take(i - start + 1);
        assert(upto.drop_last() == body.take(i - start));
        assert(upto.last() == c);
        if !is_digit(c) {
            assert(!spec_is_digit(body[i - start]));
            return None;
        }
        let d: u64 = (c as u8 - 48) as u64;
        if acc > (max - d) / 10 {
            proof {
                assert(spec_digits_value(upto) == acc * 10 + d);
                lemma_digits_value_grows(body, i - start + 1);
            }
            return None;
        }
        acc = acc * 10 + d;
        assert forall|j: int| 0 <= j < upto.len() implies spec_is_digit(#[trigger] upto[j]) by {
            if j < i - start {
                assert(upto[j] == body.take(i - start)[j]);
            }
        }
        i += 1;
    }
    assert(body.take(i - start) == body);
    Some(acc)
}

/// Reads an unsigned decimal number no larger than `max`.
fn parse_unsigned(v: &Vec<char>, max: u64) -> (r: Option<u64>)
    requires
        max >= 9,
    ensures
        r matches Some(n) ==> spec_parse_unsigned(v@, max as nat) == Some(n as nat),
        r is None ==> spec_parse_unsigned(v@, max as nat) is None,
{
    let start: usize = if v.len() > 0 && v[0] == '+' {
        1
    } else {
        0
    };
    assert(spec_unsigned_body(v@) == v@.skip(start as int));
    parse_digits_from(v, start, max)
}

/// Reads a `u64` written in decimal, as `str::parse::<u64>` does: an optional
/// `+`, then digits.
pub fn parse_u64(v: &Vec<char>) -> (r: Option<u64>)
    ensures
        r == spec_parse_u64(v@),
{
    parse_unsigned(v, u64::MAX)
}

/// Reads a `u32` written in decimal, as `str::parse::<u32>` does: an optional
/// `+`, then digits.
pub fn parse_u32(v: &Vec<char>) -> (r: Option<u32>)
    ensures
        r == spec_parse_u32(v@),
{
    match parse_unsigned(v, 0xffff_ffff) {
        Some(n) => Some(n as u32),
        None => None,
    }
}

/// Reads the `u32` that the characters of `v` from index `start` on write in
/// digits alone.
pub fn parse_digits_u32(v: &Vec<char>, start: usize) -> (r: Option<u32>)
    requires
        start <= v.len(),
    ensures
        r == spec_parse_digits_u32(v@.skip(start as int)),
{
    match parse_digits_from(v, start, 0xffff_ffff) {
        Some(n) => Some(n as u32),
        None => None,
    }
}

} // verus!
