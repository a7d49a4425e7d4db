//! Lower-case hexadecimal numerals, without leading zeros.

use vstd::prelude::*;

verus! {

/// The numeral of a number below sixteen.
pub open spec fn digit(d: nat) -> u8 {
    if d < 10 {
        ('0' as u8 + d) as u8
    } else {
        ('a' as u8 + (d - 10)) as u8
    }
}

/// The hexadecimal numeral of `n`.
pub open spec fn hex(n: nat) -> Seq<u8>
    decreases n,
{
    if n < 16 {
        seq![digit(n)]
    } else {
        hex(n / 16).push(digit(n % 16))
    }
}

/// Whether a byte is a digit from `0` to `9` or from `a` to `f`.
pub open spec fn is_digit(b: u8) -> bool {
    '0' as u8 <= b <= '9' as u8 || 'a' as u8 <= b <= 'f' as u8
}

/// Appends the hexadecimal numeral of `n`.
pub fn push_hex(out: &mut Vec<u8>, n: u128)
    ensures
        final(out)@ == old(out)@ + hex(n as nat),
    decreases n,
{
    if n >= 16 {
        push_hex(out, n / 16);
    }
    let d: u8 = (n % 16) as u8;
    out.push(
        if d < 10 {
            '0' as u8 + d
        } else {
            'a' as u8 + (d - 10)
        },
    );
    assert(out@ =~= old(out)@ + hex(n as nat));
}

/// A numeral consists of digits only and is never empty.
pub proof fn hex_has_digits(n: nat)
    ensures
        hex(n).len() > 0,
        forall|i: int| 0 <= i < hex(n).len() ==> is_digit(#[trigger] hex(n)[i]),
    decreases n,
{
    if n >= 16 {
        hex_has_digits(n / 16);
    }
}

proof fn lemma_hex_last(n: nat)
    ensures
        hex(n).len() > 0,
        hex(n).last() == digit(n % 16),
        n >= 16 ==> hex(n).drop_last() == hex(n / 16),
        n >= 16 <==> hex(n).len() > 1,
{
    if n >= 16 {
        hex_has_digits(n / 16);
        assert(hex(n).drop_last() =~= hex(n / 16));
    } else {
        assert(n % 16 == n) by (nonlinear_arith)
            requires
                n < 16,
        ;
    }
}

/// Different numbers have different numerals.
pub proof fn hex_is_injective(m: nat, n: nat)
    requires
        hex(m) == hex(n),
    ensures
        m == n,
    decreases m,
{
    lemma_hex_last(m);
    lemma_hex_last(n);
    assert(m % 16 == n % 16);
    if m >= 16 {
        hex_is_injective(m / 16, n / 16);
    }
}

/// The number that a string of hexadecimal digits stands for.
pub open spec fn value(digits: Seq<u8>) -> nat
    decreases digits.len(),
{
    if digits.len() == 0 {
        0
    } else {
        value(digits.drop_last()) * 16 + if digits.last() <= '9' as u8 {
            (digits.last() - '0' as u8) as nat
        } else {
            (digits.last() - 'a' as u8 + 10) as nat
        }
    }
}

/// The numeral of a number stands for that number and has no needless leading zero.
pub proof fn hex_stands_for_number(n: nat)
    ensures
        value(hex(n)) == n,
        hex(n).len() > 0,
        hex(n)[0] == '0' as u8 ==> n == 0 && hex(n).len() == 1,
        forall|i: int|
            0 <= i < hex(n).len() ==> ('0' as u8 <= #[trigger] hex(n)[i] <= '9' as u8 || 'a' as u8
                <= hex(n)[i] <= 'f' as u8),
    decreases n,
{
    hex_has_digits(n);
    lemma_hex_last(n);
    if n >= 16 {
        hex_stands_for_number(n / 16);
        assert(hex(n)[0] == hex(n / 16)[0]);
        assert(n == n / 16 * 16 + n % 16);
    } else {
        reveal_with_fuel(value, 2);
        assert(hex(n).drop_last() =~= Seq::<u8>::empty());
    }
}

/// A number below `16^k` needs at most `k` digits.
pub proof fn hex_len_bound(n: nat, k: nat)
    requires
        k > 0,
        n < vstd::arithmetic::power::pow(16, k),
    ensures
        hex(n).len() <= k,
    decreases k,
{
    vstd::arithmetic::power::lemma_pow1(16);
    if n >= 16 {
        if k > 1 {
            vstd::arithmetic::power::lemma_pow_adds(16, 1, (k - 1) as nat);
            hex_len_bound(n / 16, (k - 1) as nat);
        }
    }
}

/// The numeral of a 128-bit number has at most 32 digits.
pub proof fn hex_len_u128(n: u128)
    ensures
        1 <= hex(n as nat).len() <= 32,
{
    vstd::arithmetic::power::lemma_pow_multiplies(16, 8, 4);
    assert(vstd::arithmetic::power::pow(16, 8) == 0x1_0000_0000) by {
        reveal_with_fuel(vstd::arithmetic::power::pow, 9);
    }
    assert(vstd::arithmetic::power::pow(0x1_0000_0000, 4)
        == 0x1_0000_0000_0000_0000_0000_0000_0000_0000int) by {
        reveal_with_fuel(vstd::arithmetic::power::pow, 5);
    }
    hex_len_bound(n as nat, 32);
    hex_has_digits(n as nat);
}

} // verus!
