//! Small verified text-building helpers: decimal rendering and character
//! appends, used by the peer-address and history-line formatting.

use vstd::prelude::*;

verus! {

/// The character of one decimal digit.
pub open spec fn digit_char(d: nat) -> char
    recommends
        d < 10,
{
    ((48 + d) as u8) as char
}

/// Decimal digits of `n`, most significant first, no leading zeroes (a lone
/// zero for zero itself).
pub open spec fn spec_decimal(n: nat) -> Seq<char>
    decreases n,
{
    if n < 10 {
        seq![digit_char(n)]
    } else {
        spec_decimal(n / 10).push(digit_char(n % 10))
    }
}

/// Relies on `String::push`: it appends exactly the one character given.
#[verifier::external_body]
pub(crate) fn push_char(s: &mut String, c: char)
    ensures
        final(s)@ == old(s)@.push(c),
{
    s.push(c);
}

/// Append the chars collected in `cs` to `out`.
pub fn append_chars(out: &mut String, cs: &Vec<char>)
    ensures
        final(out)@ == old(out)@ + cs@,
{
    let mut i: usize = 0;
    while i < cs.len()
        invariant
            i <= cs.len(),
            out@ == old(out)@ + cs@.subrange(0, i as int),
        decreases cs.len() - i,
    {
        push_char(out, cs[i]);
        assert(old(out)@ + cs@.subrange(0, i as int + 1) =~= (old(out)@ + cs@.subrange(
            0,
            i as int,
        )).push(cs@[i as int]));
        i = i + 1;
    }
    assert(cs@.subrange(0, cs@.len() as int) =~= cs@);
}

/// Render `n` in decimal.
pub fn u64_to_string(n: u64) -> (s: String)
    ensures
        s@ == spec_decimal(n as nat),
{
    let mut m: u64 = n;
    let mut digits: Vec<char> = Vec::new();
    while m >= 10
        invariant
            spec_decimal(n as nat) == spec_decimal(m as nat) + digits@,
        decreases m,
    {
        let d: u8 = (m % 10) as u8;
        digits.insert(0, (48 + d) as char);
        assert(spec_decimal(m as nat / 10).push(digit_char(m as nat % 10)) + digits@.drop_first()
            =~= spec_decimal(m as nat / 10) + digits@);
        m = m / 10;
    }
    digits.insert(0, (48 + (m as u8)) as char);
    assert(spec_decimal(m as nat) + digits@.drop_first() =~= digits@);
    let mut s = String::new();
    append_chars(&mut s, &digits);
    assert(s@ =~= digits@);
    s
}

/// Render `n` as exactly two decimal digits, zero-padded.
pub fn two_digits(n: u64) -> (s: String)
    requires
        n < 100,
    ensures
        s@ == seq![digit_char((n / 10) as nat), digit_char((n % 10) as nat)],
{
    let mut s = String::new();
    push_char(&mut s, (48 + (n / 10) as u8) as char);
    push_char(&mut s, (48 + (n % 10) as u8) as char);
    assert(s@ =~= seq![digit_char((n / 10) as nat), digit_char((n % 10) as nat)]);
    s
}

} // verus!
