//! Decimal rendering of signed integers.

use vstd::prelude::*;

verus! {

/// The ASCII digit for a value below ten.
pub open spec fn digit_char(d: nat) -> char {
    ((48 + d) as u8) as char
}

/// The decimal digits of a natural number, most significant first, with no
/// leading zero (zero itself is "0").
pub open spec fn nat_digits(n: nat) -> Seq<char>
    decreases n,
{
    if n < 10 {
        seq![digit_char(n)]
    } else {
        nat_digits(n / 10).push(digit_char(n % 10))
    }
}

/// The decimal text of an integer: a minus sign for negative values, then
/// the digits of its magnitude.
pub open spec fn int_decimal(i: int) -> Seq<char> {
    if i < 0 {
        seq!['-'] + nat_digits((-i) as nat)
    } else {
        nat_digits(i as nat)
    }
}

/// Every decimal text is non-empty and made of ASCII digits.
pub proof fn lemma_nat_digits_are_digits(n: nat)
    ensures
        nat_digits(n).len() >= 1,
        n >= 10 ==> nat_digits(n).len() >= 2,
        forall|i: int| 0 <= i < nat_digits(n).len() ==> '0' <= #[trigger] nat_digits(n)[i] <= '9',
    decreases n,
{
    if n >= 10 {
        lemma_nat_digits_are_digits(n / 10);
        let prev = nat_digits(n / 10);
        assert forall|i: int| 0 <= i < nat_digits(n).len() implies '0' <= #[trigger] nat_digits(n)[i] <= '9' by {
            if i < prev.len() {
                assert(nat_digits(n)[i] == prev[i]);
            }
        }
    }
}

proof fn lemma_digit_char_injective(a: nat, b: nat)
    requires
        a < 10,
        b < 10,
        digit_char(a) == digit_char(b),
    ensures
        a == b,
{
}

/// Distinct natural numbers have distinct decimal texts.
pub proof fn lemma_nat_digits_injective(n: nat, m: nat)
    requires
        nat_digits(n) == nat_digits(m),
    ensures
        n == m,
    decreases n,
{
    lemma_nat_digits_are_digits(n);
    lemma_nat_digits_are_digits(m);
    if n < 10 && m < 10 {
        assert(nat_digits(n) == seq![digit_char(n)]);
        assert(nat_digits(m) == seq![digit_char(m)]);
        assert(nat_digits(n)[0] == nat_digits(m)[0]);
        assert(seq![digit_char(n)][0] == digit_char(n));
        assert(digit_char(n) == digit_char(m));
        lemma_digit_char_injective(n, m);
    } else if n >= 10 && m >= 10 {
        assert(nat_digits(n).drop_last() == nat_digits(m).drop_last());
        assert(nat_digits(n / 10) =~= nat_digits(n).drop_last());
        assert(nat_digits(m / 10) =~= nat_digits(m).drop_last());
        lemma_nat_digits_injective(n / 10, m / 10);
        assert(nat_digits(n).last() == nat_digits(m).last());
        assert(nat_digits(n).last() == digit_char(n % 10));
        assert(nat_digits(m).last() == digit_char(m % 10));
        lemma_digit_char_injective(n % 10, m % 10);
    }
}

/// Distinct integers have distinct decimal texts, so texts such as
/// checkpoint links tell the numbers they were made from apart.
pub proof fn lemma_int_decimal_injective(a: int, b: int)
    requires
        int_decimal(a) == int_decimal(b),
    ensures
        a == b,
{
    if a < 0 && b < 0 {
        assert(nat_digits((-a) as nat) =~= int_decimal(a).drop_first());
        assert(nat_digits((-b) as nat) =~= int_decimal(b).drop_first());
        lemma_nat_digits_injective((-a) as nat, (-b) as nat);
    } else if a >= 0 && b >= 0 {
        lemma_nat_digits_injective(a as nat, b as nat);
    } else if a < 0 {
        lemma_nat_digits_are_digits(b as nat);
        assert(int_decimal(a)[0] == '-');
        assert('0' <= int_decimal(b)[0] <= '9');
    } else {
        lemma_nat_digits_are_digits(a as nat);
        assert(int_decimal(b)[0] == '-');
        assert('0' <= int_decimal(a)[0] <= '9');
    }
}

/// `String::push` from std: appends one character to the end of the string.
#[verifier::external_body]
pub(crate) fn push_char(s: &mut String, c: char)
    ensures
        final(s)@ == old(s)@.push(c),
{
    s.push(c);
}

fn digit(d: u64) -> (c: char)
    requires
        d < 10,
    ensures
        c == digit_char(d as nat),
{
    ((48 + d) as u8) as char
}

fn push_digits(s: &mut String, n: u64)
    ensures
        final(s)@ == old(s)@ + nat_digits(n as nat),
    decreases n,
{
    if n >= 10 {
        push_digits(s, n / 10);
    }
    push_char(s, digit(n % 10));
}

/// Appends the decimal text of `n` to `s`.
pub fn push_decimal(s: &mut String, n: i64)
    ensures
        final(s)@ == old(s)@ + int_decimal(n as int),
{
    if n < 0 {
        push_char(s, '-');
        let magnitude: u64 = (-(n as i128)) as u64;
        push_digits(s, magnitude);
    } else {
        push_digits(s, n as u64);
    }
}

/// The decimal text of `n`, as `format!("{}", n)` writes it.
pub fn i64_to_decimal(n: i64) -> (s: String)
    ensures
        s@ == int_decimal(n as int),
{
    let mut s = String::new();
    push_decimal(&mut s, n);
    s
}

} // verus!
