use vstd::prelude::*;
use vstd::string::{StrSliceExecFns, StringExecFns};

verus! {

/// The ASCII digit for `d % 10`.
pub open spec fn digit_char(d: nat) -> char {
    ((48 + d % 10) as u8) as char
}

/// The decimal text of `n`, without leading zeros.
pub open spec fn decimal_seq(n: nat) -> Seq<char>
    decreases n,
{
    if n < 10 {
        seq![digit_char(n)]
    } else {
        decimal_seq(n / 10).push(digit_char(n % 10))
    }
}

/// Whether `c` is one of the ASCII digits.
pub open spec fn is_digit(c: char) -> bool {
    '0' <= c && c <= '9'
}

/// The value of the ASCII digit `c`.
pub open spec fn digit_value(c: char) -> nat {
    (c as u32 - 48) as nat
}

/// The value of a string of ASCII digits, read in base ten.
pub open spec fn digits_value(s: Seq<char>) -> nat
    decreases s.len(),
{
    if s.len() == 0 {
        0
    } else {
        digits_value(s.drop_last()) * 10 + digit_value(s.last())
    }
}

pub(crate) fn digit_text(d: u128) -> (r: &'static str)
    requires
        d < 10,
    ensures
        r@ == seq![digit_char(d as nat)],
{
    let r = match d {
        0 => "0",
        1 => "1",
        2 => "2",
        3 => "3",
        4 => "4",
        5 => "5",
        6 => "6",
        7 => "7",
        8 => "8",
        _ => "9",
    };
    proof {
        reveal_strlit("0");
        reveal_strlit("1");
        reveal_strlit("2");
        reveal_strlit("3");
        reveal_strlit("4");
        reveal_strlit("5");
        reveal_strlit("6");
        reveal_strlit("7");
        reveal_strlit("8");
        reveal_strlit("9");
        assert(r@ =~= seq![digit_char(d as nat)]);
    }
    r
}

pub(crate) fn push_decimal(n: u128, out: &mut String)
    ensures
        final(out)@ == old(out)@ + decimal_seq(n as nat),
    decreases n,
{
    if n >= 10 {
        push_decimal(n / 10, out);
    }
    out.append(digit_text(n % 10));
    assert(final(out)@ =~= old(out)@ + decimal_seq(n as nat));
}

proof fn lemma_digit_char(d: nat)
    ensures
        is_digit(digit_char(d)),
        digit_value(digit_char(d)) == d % 10,
        digit_char(d) == '0' <==> d % 10 == 0,
{
}

proof fn lemma_digit_round_trip(c: char)
    requires
        is_digit(c),
    ensures
        digit_char(digit_value(c)) == c,
        digit_value(c) < 10,
{
}

/// Ten to the power `k`.
pub open spec fn pow10(k: nat) -> nat
    decreases k,
{
    if k == 0 {
        1
    } else {
        10 * pow10((k - 1) as nat)
    }
}

/// The number whose decimal text is `s`, if `s` is the decimal text of a
/// `u64`.
pub open spec fn id_of_text(s: Seq<char>) -> Option<u64> {
    if exists|n: u64| decimal_seq(n as nat) == s {
        Some(choose|n: u64| decimal_seq(n as nat) == s)
    } else {
        None
    }
}

proof fn lemma_decimal_shape(n: nat)
    ensures
        decimal_seq(n).len() >= 1,
        forall|k: int| 0 <= k < decimal_seq(n).len() ==> is_digit(#[trigger] decimal_seq(n)[k]),
        digits_value(decimal_seq(n)) == n,
        n >= 1 ==> decimal_seq(n)[0] != '0',
        n >= 10 ==> decimal_seq(n).len() >= 2,
    decreases n,
{
    lemma_digit_char(n);
    lemma_digit_char(n % 10);
    let d = decimal_seq(n);
    if n >= 10 {
        lemma_decimal_shape(n / 10);
        assert(d.drop_last() =~= decimal_seq(n / 10));
        assert(d.last() == digit_char(n % 10));
        assert(digits_value(d) == (n / 10) * 10 + n % 10);
    } else {
        assert(d.drop_last() =~= Seq::<char>::empty());
        assert(digits_value(Seq::<char>::empty()) == 0);
        assert(digits_value(d) == digit_value(digit_char(n)));
    }
}

proof fn lemma_decimal_len(n: nat, k: nat)
    requires
        n < pow10(k),
    ensures
        decimal_seq(n).len() <= k || (n < 10 && k == 0),
    decreases n,
{
    if n >= 10 {
        assert(k >= 1);
        assert(n / 10 < pow10((k - 1) as nat));
        lemma_decimal_len(n / 10, (k - 1) as nat);
    }
}

proof fn lemma_value_positive(s: Seq<char>)
    requires
        s.len() >= 1,
        forall|k: int| 0 <= k < s.len() ==> is_digit(#[trigger] s[k]),
        s[0] != '0',
    ensures
        digits_value(s) >= 1,
    decreases s.len(),
{
    if s.len() > 1 {
        lemma_value_positive(s.drop_last());
    }
}

proof fn lemma_canonical_text(s: Seq<char>)
    requires
        s.len() >= 1,
        forall|k: int| 0 <= k < s.len() ==> is_digit(#[trigger] s[k]),
        s.len() == 1 || s[0] != '0',
    ensures
        decimal_seq(digits_value(s)) == s,
    decreases s.len(),
{
    lemma_digit_round_trip(s.last());
    if s.len() == 1 {
        assert(s.drop_last() =~= Seq::<char>::empty());
        assert(digits_value(Seq::<char>::empty()) == 0);
        assert(digits_value(s) == digit_value(s.last()));
        assert(seq![s.last()] =~= s);
    } else {
        let rest = s.drop_last();
        lemma_canonical_text(rest);
        lemma_value_positive(rest);
        let v = digits_value(s);
        assert(v / 10 == digits_value(rest));
        assert(v % 10 == digit_value(s.last()));
        assert(v >= 10);
        assert(decimal_seq(v) == decimal_seq(v / 10).push(digit_char(v % 10)));
        assert(rest.push(s.last()) =~= s);
    }
}

/// Reads `s` as the decimal text of a `u64`: digits only, no sign, no
/// leading zero but in `0` itself.
pub fn parse_id(s: &str) -> (r: Option<u64>)
    ensures
        r == id_of_text(s@),
{
    let n = s.unicode_len();
    if n == 0 || n > 20 {
        proof {
            assert forall|m: u64| decimal_seq(m as nat) != s@ by {
                lemma_decimal_shape(m as nat);
                reveal_with_fuel(pow10, 21);
                lemma_decimal_len(m as nat, 20);
            }
        }
        return None;
    }
    let first = s.get_char(0);
    if n > 1 && first == '0' {
        proof {
            assert forall|m: u64| decimal_seq(m as nat) != s@ by {
                lemma_decimal_shape(m as nat);
            }
        }
        return None;
    }
    let mut value: u128 = 0;
    let mut i: usize = 0;
    proof {
        lemma_pow10_mono(0, 20);
    }
    while i < n
        invariant
            n == s@.len(),
            1 <= n <= 20,
            n == 1 || s@[0] != '0',
            i <= n,
            value == digits_value(s@.take(i as int)),
            value < pow10(i as nat),
            pow10(i as nat) <= pow10(20),
            forall|k: int| 0 <= k < i ==> is_digit(#[trigger] s@[k]),
        decreases n - i,
    {
        let c = s.get_char(i);
        if !('0' <= c && c <= '9') {
            proof {
                assert forall|m: u64| decimal_seq(m as nat) != s@ by {
                    lemma_decimal_shape(m as nat);
                    if decimal_seq(m as nat) == s@ {
                        assert(is_digit(decimal_seq(m as nat)[i as int]));
                    }
                }
            }
            return None;
        }
        proof {
            lemma_digit_round_trip(c);
            assert(s@.take(i + 1).drop_last() =~= s@.take(i as int));
            reveal_with_fuel(pow10, 21);
            assert(pow10(i as nat) <= pow10(20)) by {
                lemma_pow10_mono(i as nat, 20);
            }
            lemma_pow10_mono((i + 1) as nat, 20);
        }
        value = value * 10 + ((c as u32) - 48) as u128;
        i = i + 1;
    }
    proof {
        assert(s@.take(n as int) =~= s@);
        lemma_canonical_text(s@);
    }
    if value > u64::MAX as u128 {
        proof {
            assert forall|m: u64| decimal_seq(m as nat) != s@ by {
                lemma_decimal_shape(m as nat);
            }
        }
        return None;
    }
    proof {
        let m = value as u64;
        assert(decimal_seq(m as nat) == s@);
        let c = choose|c: u64| decimal_seq(c as nat) == s@;
        lemma_decimal_shape(c as nat);
    }
    Some(value as u64)
}

proof fn lemma_pow10_mono(a: nat, b: nat)
    requires
        a <= b,
    ensures
        pow10(a) <= pow10(b),
    decreases b,
{
    if a < b {
        lemma_pow10_mono(a, (b - 1) as nat);
    }
}

} // verus!
