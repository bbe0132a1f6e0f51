use vstd::arithmetic::div_mod::{lemma_fundamental_div_mod, lemma_fundamental_div_mod_converse};
use crate::decimal::{decimal_seq, digit_char, digit_text, push_decimal};
use vstd::prelude::*;
use vstd::string::StringExecFns;

verus! {

/// Millionths of a gibibyte in one hundredth of a gibibyte.
pub const MICRO_PER_HUNDREDTH: u128 = 10000;

/// Millionths of a gibibyte in one tebibyte (1024 GiB).
pub const MICRO_PER_TIB: u128 = 1024000000;

/// `h` hundredths written with two decimals, as in `12.05`.
pub open spec fn hundredths_text(h: nat) -> Seq<char> {
    decimal_seq(h / 100) + seq!['.', digit_char(h / 10), digit_char(h)]
}

/// `a / b` rounded to the nearest integer, halves rounded up.
pub open spec fn round_div(a: nat, b: nat) -> nat
    recommends
        b > 0,
{
    (a + b / 2) / b
}

/// The human-readable form of a total of `total` millionths of a gibibyte:
/// tebibytes from 1024 GiB on, gibibytes below, two decimals either way.
pub open spec fn display_text(total: nat) -> Seq<char> {
    if total >= MICRO_PER_TIB {
        hundredths_text(round_div(total * 100, MICRO_PER_TIB as nat)) + seq![' ', 'T', 'B']
    } else {
        hundredths_text(round_div(total, MICRO_PER_HUNDREDTH as nat)) + seq![' ', 'G', 'B']
    }
}

fn push_hundredths(h: u128, out: &mut String)
    ensures
        final(out)@ == old(out)@ + hundredths_text(h as nat),
{
    push_decimal(h / 100, out);
    out.append(".");
    out.append(digit_text((h / 10) % 10));
    out.append(digit_text(h % 10));
    proof {
        reveal_strlit(".");
        assert(digit_char(((h / 10) % 10) as nat) == digit_char((h / 10) as nat));
        assert(final(out)@ =~= old(out)@ + hundredths_text(h as nat));
    }
}

proof fn lemma_round_split(t: nat, d: nat)
    requires
        d > 0,
    ensures
        round_div(t * 100, d) == (t / d) * 100 + ((t % d) * 100 + d / 2) / d,
{
    let q = t / d;
    let r = t % d;
    lemma_fundamental_div_mod(t as int, d as int);
    let big_r = r * 100 + d / 2;
    let q2 = big_r / d;
    let r2 = big_r % d;
    lemma_fundamental_div_mod(big_r as int, d as int);
    assert(t * 100 + d / 2 == (q * 100 + q2) * d + r2) by (nonlinear_arith)
        requires
            t == d * q + r,
            big_r == r * 100 + d / 2,
            big_r == d * q2 + r2,
    ;
    lemma_fundamental_div_mod_converse((t * 100 + d / 2) as int, d as int, (q * 100 + q2) as int, r2 as int);
}

/// The display text of a total size given in millionths of a gibibyte.
pub fn size_display(total_micro: u128) -> (r: String)
    ensures
        r@ == display_text(total_micro as nat),
{
    let mut text = String::new();
    if total_micro >= MICRO_PER_TIB {
        let q = total_micro / MICRO_PER_TIB;
        let rem = total_micro % MICRO_PER_TIB;
        assert(q * 100 <= u128::MAX) by (nonlinear_arith)
            requires q == total_micro / 1024000000u128;
        let h = q * 100 + (rem * 100 + MICRO_PER_TIB / 2) / MICRO_PER_TIB;
        proof {
            lemma_round_split(total_micro as nat, MICRO_PER_TIB as nat);
        }
        push_hundredths(h, &mut text);
        text.append(" TB");
        proof {
            reveal_strlit(" TB");
        }
    } else {
        let h = (total_micro + MICRO_PER_HUNDREDTH / 2) / MICRO_PER_HUNDREDTH;
        push_hundredths(h, &mut text);
        text.append(" GB");
        proof {
            reveal_strlit(" GB");
        }
    }
    assert(text@ =~= display_text(total_micro as nat));
    text
}

} // verus!
