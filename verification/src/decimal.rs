//! Decimal notation of unsigned integers, as written by `Display`.

use vstd::prelude::*;

verus! {

/// The ASCII digit for `d < 10`.
pub open spec fn digit_char(d: nat) -> char {
    (48 + d) as char
}

/// An ASCII digit `0`-`9`.
pub open spec fn is_digit_char(c: char) -> bool {
    '0' <= c && c <= '9'
}

/// The decimal digits of `n`, most significant first, without leading zeros.
pub open spec fn decimal(n: nat) -> Seq<char>
    decreases n,
{
    if n < 10 {
        seq![digit_char(n)]
    } else {
        decimal(n / 10).push(digit_char(n % 10))
    }
}

/// The decimal notation of a number is a non-empty run of digits.
pub proof fn lemma_decimal_digits(n: nat)
    ensures
        decimal(n).len() >= 1,
        n < 10 ==> decimal(n).len() == 1,
        n >= 10 ==> decimal(n).len() >= 2,
        forall|i: int| 0 <= i < decimal(n).len() ==> is_digit_char(#[trigger] decimal(n)[i]),
    decreases n,
{
    if n >= 10 {
        lemma_decimal_digits(n / 10);
        let d = decimal(n / 10);
        assert forall|i: int| 0 <= i < decimal(n).len() implies is_digit_char(
            #[trigger] decimal(n)[i],
        ) by {
            if i < d.len() {
                assert(decimal(n)[i] == d[i]);
            }
        }
    }
}

/// Different numbers are written differently.
pub proof fn lemma_decimal_injective(a: nat, b: nat)
    requires
        decimal(a) == decimal(b),
    ensures
        a == b,
    decreases a,
{
    lemma_decimal_digits(a);
    lemma_decimal_digits(b);
    if a >= 10 && b >= 10 {
        assert(decimal(a).last() == decimal(b).last());
        assert(digit_char(a % 10) as int == 48 + a % 10);
        assert(digit_char(b % 10) as int == 48 + b % 10);
        assert(decimal(a).last() == digit_char(a % 10));
        assert(decimal(b).last() == digit_char(b % 10));
        assert(digit_char(a % 10) == digit_char(b % 10));
        assert(a % 10 == b % 10);
        assert(decimal(a / 10) =~= decimal(a).drop_last());
        assert(decimal(b / 10) =~= decimal(b).drop_last());
        lemma_decimal_injective(a / 10, b / 10);
        assert(a == 10 * (a / 10) + a % 10);
        assert(b == 10 * (b / 10) + b % 10);
    } else if a < 10 && b < 10 {
        assert(decimal(a)[0] == decimal(b)[0]);
        assert(decimal(a)[0] == digit_char(a));
        assert(decimal(b)[0] == digit_char(b));
        assert(digit_char(a) as int == 48 + a);
        assert(digit_char(b) as int == 48 + b);
        assert(a == b);
    } else {
        assert(decimal(a).len() != decimal(b).len());
    }
}

/// A number, a dot and the rest are read back unambiguously: the dot after the digits is the
/// first one.
pub proof fn lemma_split_at_dot(a: nat, b: nat, r1: Seq<char>, r2: Seq<char>)
    requires
        decimal(a) + seq!['.'] + r1 == decimal(b) + seq!['.'] + r2,
    ensures
        a == b,
        r1 == r2,
{
    lemma_decimal_digits(a);
    lemma_decimal_digits(b);
    let s = decimal(a) + seq!['.'] + r1;
    let la = decimal(a).len() as int;
    let lb = decimal(b).len() as int;
    if la < lb {
        assert(s[la] == '.');
        assert(s[la] == decimal(b)[la]);
        assert(is_digit_char(decimal(b)[la]));
    } else if lb < la {
        assert(s[lb] == decimal(a)[lb]);
        assert(is_digit_char(decimal(a)[lb]));
        assert((decimal(b) + seq!['.'] + r2)[lb] == '.');
    }
    assert(decimal(a) =~= s.take(la));
    assert(decimal(b) =~= (decimal(b) + seq!['.'] + r2).take(lb));
    lemma_decimal_injective(a, b);
    assert(r1 =~= s.skip(la + 1));
    assert(r2 =~= (decimal(b) + seq!['.'] + r2).skip(lb + 1));
}

/// Writes `n` in decimal with `u64`'s `Display` (through std's `ToString`): the digits of `n`,
/// most significant first, with no sign, padding or leading zero.
#[verifier::external_body]
pub(crate) fn decimal_string(n: u64) -> (res: String)
    ensures
        res@ == decimal(n as nat),
{
    n.to_string()
}

} // verus!
