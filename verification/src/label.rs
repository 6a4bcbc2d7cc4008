use vstd::prelude::*;
use crate::std_calls::string_push;

verus! {

/// The decimal digit `d` as a character.
pub open spec fn digit_char(d: nat) -> char {
    ((48 + d) as u8) as char
}

/// The decimal numeral of `n`, without leading zeros.
pub open spec fn decimal(n: nat) -> Seq<char>
    decreases n,
{
    if n < 10 {
        seq![digit_char(n)]
    } else {
        decimal(n / 10) + seq![digit_char(n % 10)]
    }
}

/// The status line under the screen: how many component calls the last frame
/// served, or `___` when it served none.
pub open spec fn spec_invocation_label(n: nat) -> Seq<char> {
    if n == 0 {
        "component.invoke(): ___"@
    } else {
        "component.invoke(): "@ + decimal(n)
    }
}

/// Appends the decimal numeral of `n` to `s`.
pub(crate) fn push_decimal(s: &mut String, n: u64)
    ensures
        final(s)@ == old(s)@ + decimal(n as nat),
    decreases n,
{
    if n >= 10 {
        push_decimal(s, n / 10);
    }
    let d = (n % 10) as u8;
    string_push(s, (48u8 + d) as char);
    proof {
        if n >= 10 {
            assert(old(s)@ + decimal(n as nat) =~= old(s)@ + decimal((n / 10) as nat) + seq![digit_char((n % 10) as nat)]);
        } else {
            assert(old(s)@ + decimal(n as nat) =~= old(s)@ + seq![digit_char((n % 10) as nat)]);
        }
    }
}

/// The status line under the screen: how many component calls the last frame
/// served, or `___` when it served none.
pub fn invocation_label(n: u64) -> (r: String)
    ensures
        r@ == spec_invocation_label(n as nat),
{
    if n != 0 {
        let mut s = "component.invoke(): ".to_owned();
        push_decimal(&mut s, n);
        s
    } else {
        "component.invoke(): ___".to_owned()
    }
}

/// Whether `c` is one of the decimal digits `0` to `9`.
pub open spec fn is_digit(c: char) -> bool {
    '0' <= c && c <= '9'
}

/// The number that a string of decimal digits reads as.
pub open spec fn digits_value(s: Seq<char>) -> int
    decreases s.len(),
{
    if s.len() == 0 {
        0
    } else {
        digits_value(s.drop_last()) * 10 + (s.last() as int - 48)
    }
}

/// The decimal numeral of `n` is a non-empty string of digits, without a
/// leading zero unless `n` is zero, that reads as `n`.
pub proof fn lemma_decimal_reads_back(n: nat)
    ensures
        decimal(n).len() >= 1,
        forall|i: int| 0 <= i < decimal(n).len() ==> is_digit(#[trigger] decimal(n)[i]),
        digits_value(decimal(n)) == n,
        n > 0 ==> decimal(n)[0] != '0',
    decreases n,
{
    if n >= 10 {
        lemma_decimal_reads_back(n / 10);
        let d = decimal(n);
        assert(d.drop_last() =~= decimal(n / 10));
        assert forall|i: int| 0 <= i < d.len() implies is_digit(#[trigger] d[i]) by {
            if i < d.len() - 1 {
                assert(d[i] == decimal(n / 10)[i]);
            }
        }
        assert(d[0] == decimal(n / 10)[0]);
        assert(d.last() == digit_char((n % 10) as nat));
        assert(digit_char((n % 10) as nat) as int == 48 + n % 10);
        assert((n / 10) * 10 + n % 10 == n) by (nonlinear_arith);
        assert(digits_value(d) == digits_value(d.drop_last()) * 10 + (d.last() as int - 48));
        assert(digits_value(d.drop_last()) == n / 10);
    } else {
        assert(decimal(n).drop_last() =~= Seq::<char>::empty());
        assert(digit_char(n) as int == 48 + n);
        assert(digits_value(decimal(n).drop_last()) == 0);
        assert(decimal(n).last() == digit_char(n));
    }
}

/// The status line counts the calls of the last frame: for every count
/// `n >= 1` it is `component.invoke(): ` followed by a numeral without a
/// leading zero that reads as `n`, and it shows `___` only when `n` is zero.
pub proof fn lemma_label_counts(n: nat)
    ensures
        n == 0 ==> spec_invocation_label(n) == "component.invoke(): ___"@,
        n >= 1 ==> ({
            let d = decimal(n);
            &&& spec_invocation_label(n) == "component.invoke(): "@ + d
            &&& d.len() >= 1
            &&& forall|i: int| 0 <= i < d.len() ==> is_digit(#[trigger] d[i])
            &&& digits_value(d) == n
            &&& d[0] != '0'
        }),
{
    lemma_decimal_reads_back(n);
}

} // verus!
