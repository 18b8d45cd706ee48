//! Decimal rendering of integers.
use vstd::prelude::*;
use vstd::string::StringExecFns;

verus! {

/// The character of the decimal digit `d`.
pub open spec fn digit_char(d: nat) -> char {
    if d == 0 {
        '0'
    } else if d == 1 {
        '1'
    } else if d == 2 {
        '2'
    } else if d == 3 {
        '3'
    } else if d == 4 {
        '4'
    } else if d == 5 {
        '5'
    } else if d == 6 {
        '6'
    } else if d == 7 {
        '7'
    } else if d == 8 {
        '8'
    } else {
        '9'
    }
}

/// The decimal numeral of `n`: most significant digit first, no leading zero
/// except for zero itself.
pub open spec fn decimal(n: nat) -> Seq<char>
    decreases n,
{
    if n < 10 {
        seq![digit_char(n)]
    } else {
        decimal(n / 10).push(digit_char(n % 10))
    }
}

/// The decimal numeral of a signed integer: a minus sign before the numeral
/// of the magnitude when `v` is negative.
pub open spec fn signed_decimal(v: int) -> Seq<char> {
    if v < 0 {
        seq!['-'] + decimal((-v) as nat)
    } else {
        decimal(v as nat)
    }
}

/// The numeral of a single digit as a string slice.
fn digit_str(d: u8) -> (s: &'static str)
    requires
        d < 10,
    ensures
        s@ == seq![digit_char(d as nat)],
{
    proof {
        reveal_strlit("0");
        reveal_strlit("1");
        reveal_strlit("2");
        reveal_strlit("3");
        reveal_strlit("4");
        reveal_strlit("5");
        reveal_strlit("6");
        reveal_strlit("7");
        reveal_strlit("8");
        reveal_strlit("9");
    }
    let s = if d == 0 {
        "0"
    } else if d == 1 {
        "1"
    } else if d == 2 {
        "2"
    } else if d == 3 {
        "3"
    } else if d == 4 {
        "4"
    } else if d == 5 {
        "5"
    } else if d == 6 {
        "6"
    } else if d == 7 {
        "7"
    } else if d == 8 {
        "8"
    } else {
        "9"
    };
    assert(s@ =~= seq![digit_char(d as nat)]);
    s
}

/// The digits of `n` from the least significant up, as the loop of
/// [`push_decimal`] collects them.
spec fn digits_reversed(n: nat) -> Seq<u8>
    decreases n,
{
    if n < 10 {
        seq![n as u8]
    } else {
        seq![(n % 10) as u8] + digits_reversed(n / 10)
    }
}

/// The numeral spelled by digits that are stored least significant first.
spec fn spelled(digits: Seq<u8>) -> Seq<char>
    decreases digits.len(),
{
    if digits.len() == 0 {
        Seq::empty()
    } else {
        spelled(digits.drop_first()).push(digit_char(digits[0] as nat))
    }
}

proof fn lemma_spelled_digits(n: nat)
    ensures
        spelled(digits_reversed(n)) == decimal(n),
        digits_reversed(n).len() >= 1,
        forall|i: int| 0 <= i < digits_reversed(n).len() ==> #[trigger] digits_reversed(n)[i] < 10,
    decreases n,
{
    if n < 10 {
        let d = digits_reversed(n);
        assert(d.drop_first() =~= Seq::<u8>::empty());
        assert(spelled(d.drop_first()) =~= Seq::<char>::empty());
        assert(spelled(d) =~= seq![digit_char(n)]);
    } else {
        lemma_spelled_digits(n / 10);
        let d = digits_reversed(n);
        assert(d.drop_first() =~= digits_reversed(n / 10));
    }
}

proof fn lemma_spelled_step(digits: Seq<u8>, k: int)
    requires
        0 < k <= digits.len(),
    ensures
        spelled(digits.subrange(k - 1, digits.len() as int)) == spelled(
            digits.subrange(k, digits.len() as int),
        ).push(digit_char(digits[k - 1] as nat)),
{
    let tail = digits.subrange(k - 1, digits.len() as int);
    assert(tail.drop_first() =~= digits.subrange(k, digits.len() as int));
}

/// Appends the decimal numeral of `n` to `out`.
pub fn push_decimal(out: &mut String, n: u128)
    ensures
        final(out)@ == old(out)@ + decimal(n as nat),
{
    let mut digits: Vec<u8> = Vec::new();
    let mut rest: u128 = n;
    while rest >= 10
        invariant
            digits@ + digits_reversed(rest as nat) == digits_reversed(n as nat),
        decreases rest,
    {
        let d: u8 = (rest % 10) as u8;
        proof {
            assert(digits@.push(d) + digits_reversed((rest / 10) as nat) =~= digits@
                + digits_reversed(rest as nat));
        }
        digits.push(d);
        rest = rest / 10;
    }
    digits.push(rest as u8);
    proof {
        assert(digits@ =~= digits_reversed(n as nat));
        lemma_spelled_digits(n as nat);
    }
    let mut k: usize = digits.len();
    let ghost before = out@;
    proof {
        assert(digits@.subrange(k as int, digits.len() as int) =~= Seq::<u8>::empty());
    }
    while k > 0
        invariant
            0 <= k <= digits.len(),
            forall|i: int| 0 <= i < digits.len() ==> #[trigger] digits@[i] < 10,
            out@ == before + spelled(digits@.subrange(k as int, digits.len() as int)),
        decreases k,
    {
        proof {
            lemma_spelled_step(digits@, k as int);
        }
        k = k - 1;
        out.append(digit_str(digits[k]));
    }
    proof {
        assert(digits@.subrange(0, digits.len() as int) =~= digits@);
    }
}

/// Appends the decimal numeral of a signed integer to `out`.
pub fn push_signed_decimal(out: &mut String, v: i64)
    ensures
        final(out)@ == old(out)@ + signed_decimal(v as int),
{
    let ghost before = out@;
    if v < 0 {
        out.append("-");
        let magnitude: u128 = (-(v as i128)) as u128;
        push_decimal(out, magnitude);
        proof {
            reveal_strlit("-");
            assert("-"@ =~= seq!['-']);
            assert(out@ =~= before + signed_decimal(v as int));
        }
    } else {
        push_decimal(out, v as u128);
    }
}

/// A value given in hundredths, written with two decimals: the numeral of
/// the whole part, a point, and the two digits of the hundredths.
pub open spec fn two_decimals(h: nat) -> Seq<char> {
    decimal(h / 100) + seq!['.', digit_char((h % 100) / 10), digit_char(h % 10)]
}

/// Appends `h`, a value in hundredths, written with two decimals.
pub fn push_two_decimals(out: &mut String, h: u128)
    ensures
        final(out)@ == old(out)@ + two_decimals(h as nat),
{
    let ghost before = out@;
    push_decimal(out, h / 100);
    out.append(".");
    let tenths: u8 = ((h % 100) / 10) as u8;
    let units: u8 = (h % 10) as u8;
    out.append(digit_str(tenths));
    out.append(digit_str(units));
    proof {
        reveal_strlit(".");
        assert("."@ =~= seq!['.']);
        assert(out@ =~= before + two_decimals(h as nat));
    }
}

/// The digit that a character stands for; 9 for a character that is no
/// digit.
pub open spec fn digit_value(c: char) -> nat {
    if c == '0' {
        0
    } else if c == '1' {
        1
    } else if c == '2' {
        2
    } else if c == '3' {
        3
    } else if c == '4' {
        4
    } else if c == '5' {
        5
    } else if c == '6' {
        6
    } else if c == '7' {
        7
    } else if c == '8' {
        8
    } else {
        9
    }
}

/// The number that a numeral stands for.
pub open spec fn numeral_value(numeral: Seq<char>) -> nat
    decreases numeral.len(),
{
    if numeral.len() == 0 {
        0
    } else {
        numeral_value(numeral.drop_last()) * 10 + digit_value(numeral.last())
    }
}

/// A decimal numeral stands for the number it was made from. It is not
/// empty and does not begin with a minus sign.
pub proof fn lemma_decimal_value(n: nat)
    ensures
        numeral_value(decimal(n)) == n,
        decimal(n).len() >= 1,
        decimal(n)[0] != '-',
    decreases n,
{
    if n < 10 {
        assert(decimal(n).drop_last() =~= Seq::<char>::empty());
        assert(numeral_value(decimal(n).drop_last()) == 0);
    } else {
        lemma_decimal_value(n / 10);
        assert(decimal(n).drop_last() =~= decimal(n / 10));
        assert(decimal(n)[0] == decimal(n / 10)[0]);
    }
}

/// The numeral of an integer begins with a minus sign or a digit.
pub proof fn lemma_signed_decimal_begins(v: int)
    ensures
        signed_decimal(v).len() >= 1,
        signed_decimal(v)[0] == '-' || signed_decimal(v)[0] == digit_char(
            digit_value(signed_decimal(v)[0]),
        ),
{
    if v >= 0 {
        lemma_decimal_begins(v as nat);
    }
}

/// A decimal numeral begins with a digit.
proof fn lemma_decimal_begins(n: nat)
    ensures
        decimal(n).len() >= 1,
        decimal(n)[0] == digit_char(digit_value(decimal(n)[0])),
    decreases n,
{
    if n >= 10 {
        lemma_decimal_begins(n / 10);
        assert(decimal(n)[0] == decimal(n / 10)[0]);
    }
}

/// Different integers have different numerals.
pub proof fn lemma_signed_decimal_injective(a: int, b: int)
    requires
        signed_decimal(a) == signed_decimal(b),
    ensures
        a == b,
{
    let a_size = if a < 0 {
        (-a) as nat
    } else {
        a as nat
    };
    let b_size = if b < 0 {
        (-b) as nat
    } else {
        b as nat
    };
    lemma_decimal_value(a_size);
    lemma_decimal_value(b_size);
    if a < 0 {
        assert(signed_decimal(a)[0] == '-');
        assert(signed_decimal(a).drop_first() =~= decimal(a_size));
    }
    if b < 0 {
        assert(signed_decimal(b)[0] == '-');
        assert(signed_decimal(b).drop_first() =~= decimal(b_size));
    }
}

/// Two texts that begin alike and end alike are equal only if they are
/// alike in between.
pub proof fn lemma_same_frame(
    before: Seq<char>,
    one: Seq<char>,
    other: Seq<char>,
    after: Seq<char>,
)
    requires
        before + one + after == before + other + after,
    ensures
        one == other,
{
    let left = before + one + after;
    let right = before + other + after;
    assert(left.len() == right.len());
    assert(one.len() == other.len());
    assert forall|i: int| 0 <= i < one.len() implies one[i] == other[i] by {
        assert(left[before.len() + i] == one[i]);
        assert(right[before.len() + i] == other[i]);
    }
    assert(one =~= other);
}

} // verus!
